use vstd::prelude::*;
use crate::access::{refusal, validate_primary_owner};
use crate::calls::Call;
use crate::errors::ErrorCode;
use crate::events::{Initialized, OperationFeeRead};
use crate::identity::Identity;
use crate::roster::{
    contains, lemma_push_keeps_distinct, lemma_remove_keeps_distinct, lemma_remove_value_absent,
    lemma_remove_value_at_first, position,
};
use crate::state::{Challenge, State, Status};

verus! {

/// Why a challenge with these terms cannot be created, if it cannot. The checks come in
/// this order: the treasury is somebody; the rate is a percentage; the fee is positive.
pub open spec fn creation_error(fee: u64, commission: u8, treasury: Identity) -> Option<ErrorCode> {
    if treasury.is_default() {
        Some(ErrorCode::InvalidInput)
    } else if commission > 100 {
        Some(ErrorCode::InvalidCommissionRate)
    } else if fee == 0 {
        Some(ErrorCode::InvalidAmount)
    } else {
        None
    }
}

impl Challenge {
    /// A new challenge: pending, unpaid, its counter at zero, its owner its only
    /// administrator, with no subscriber and no winner.
    pub open spec fn created(
        owner: Identity,
        bump: u8,
        challenge_id: u64,
        fee: u64,
        commission: u8,
        treasury: Identity,
    ) -> Challenge {
        Challenge {
            version: State::CURRENT_VERSION,
            bump,
            challenge_id,
            fee,
            commission,
            status: Status::Pending,
            owner,
            treasury,
            paid: false,
            op_counter: 0,
            owners: seq![owner],
            subscribers: Seq::empty(),
            winners_list: Seq::empty(),
        }
    }

    /// Why a call that only the primary owner may make is refused, if the caller is the
    /// reason.
    pub open spec fn owner_error(self, caller: Identity) -> Option<ErrorCode> {
        if !self.is_primary_owner(caller) {
            Some(ErrorCode::Unauthorized)
        } else {
            None
        }
    }

    /// Why the status cannot be set to the one that `code` stands for, if it cannot: the
    /// caller is not the primary owner; or the number stands for no status; or the
    /// challenge is paid and the status is another than closed.
    pub open spec fn status_error(self, caller: Identity, code: u8) -> Option<ErrorCode> {
        if !self.is_primary_owner(caller) {
            Some(ErrorCode::Unauthorized)
        } else {
            match Status::spec_from_code(code) {
                None => Some(ErrorCode::InvalidStatus),
                Some(target) => if Status::spec_may_become(self.paid, target) {
                    None
                } else {
                    Some(ErrorCode::InvalidStatus)
                },
            }
        }
    }

    /// The challenge moved to `status`, its counter advanced by one.
    pub open spec fn with_status(self, status: Status) -> Challenge {
        Challenge { status, ..self }.counted(1)
    }

    /// Why the fee cannot be set, if it cannot: the caller is not the primary owner; or the
    /// fee is nothing; or the challenge is no longer pending.
    pub open spec fn fee_error(self, caller: Identity, fee: u64) -> Option<ErrorCode> {
        if !self.is_primary_owner(caller) {
            Some(ErrorCode::Unauthorized)
        } else if fee == 0 {
            Some(ErrorCode::InvalidAmount)
        } else if self.status != Status::Pending {
            Some(ErrorCode::InvalidStatus)
        } else {
            None
        }
    }

    /// The challenge with another fee, its counter advanced by one.
    pub open spec fn with_fee(self, fee: u64) -> Challenge {
        Challenge { fee, ..self }.counted(1)
    }

    /// Why the commission cannot be set, if it cannot: the caller is not the primary owner;
    /// or the rate is above one hundred; or the challenge is no longer pending.
    pub open spec fn commission_error(self, caller: Identity, commission: u8) -> Option<ErrorCode> {
        if !self.is_primary_owner(caller) {
            Some(ErrorCode::Unauthorized)
        } else if commission > 100 {
            Some(ErrorCode::InvalidCommissionRate)
        } else if self.status != Status::Pending {
            Some(ErrorCode::InvalidStatus)
        } else {
            None
        }
    }

    /// The challenge with another commission rate, its counter advanced by one.
    pub open spec fn with_commission(self, commission: u8) -> Challenge {
        Challenge { commission, ..self }.counted(1)
    }

    /// Why the treasury cannot be set, if it cannot: the caller is not the primary owner, or
    /// the new treasury is nobody.
    pub open spec fn treasury_error(self, caller: Identity, treasury: Identity) -> Option<ErrorCode> {
        if !self.is_primary_owner(caller) {
            Some(ErrorCode::Unauthorized)
        } else if treasury.is_default() {
            Some(ErrorCode::InvalidInput)
        } else {
            None
        }
    }

    /// The challenge with another treasury, its counter advanced by one.
    pub open spec fn with_treasury(self, treasury: Identity) -> Challenge {
        Challenge { treasury, ..self }.counted(1)
    }

    /// Why an administrator cannot be added, if one cannot: the caller is not the primary
    /// owner; or the challenge is closed; or the administrator is new and the list is full.
    pub open spec fn add_owner_error(self, caller: Identity, new_owner: Identity) -> Option<ErrorCode> {
        if !self.is_primary_owner(caller) {
            Some(ErrorCode::Unauthorized)
        } else if self.status == Status::Closed {
            Some(ErrorCode::InvalidStatus)
        } else if !self.owners.contains(new_owner) && self.owners.len() >= State::MAX_OWNERS {
            Some(ErrorCode::TooManyOwners)
        } else {
            None
        }
    }

    /// The challenge with `new_owner` among its administrators: added at the end where new,
    /// and the challenge as it is where the administrator is listed already.
    pub open spec fn with_owner(self, new_owner: Identity) -> Challenge {
        if self.owners.contains(new_owner) {
            self
        } else {
            Challenge { owners: self.owners.push(new_owner), ..self }
        }
    }

    /// Why an administrator cannot be removed, if one cannot: the caller is not the primary
    /// owner; or the challenge is closed; or the administrator is the only one listed.
    pub open spec fn remove_owner_error(self, caller: Identity, user: Identity) -> Option<ErrorCode> {
        if !self.is_primary_owner(caller) {
            Some(ErrorCode::Unauthorized)
        } else if self.status == Status::Closed {
            Some(ErrorCode::InvalidStatus)
        } else if self.owners.contains(user) && self.owners.len() <= 1 {
            Some(ErrorCode::InvalidInput)
        } else {
            None
        }
    }

    /// The challenge without `user` among its administrators, the others in their order. A
    /// challenge that does not list the user is left as it is.
    pub open spec fn without_owner(self, user: Identity) -> Challenge {
        Challenge { owners: self.owners.remove_value(user), ..self }
    }
}

/// Creates a challenge for `owner` with the given terms.
pub fn initialize(
    owner: Identity,
    bump: u8,
    challenge_id: u64,
    fee: u64,
    commission: u8,
    treasury: Identity,
) -> (r: Result<(State, Initialized), ErrorCode>)
    ensures
        (match creation_error(fee, commission, treasury) {
            Some(e) => r == Err::<(State, Initialized), ErrorCode>(e),
            None => {
                &&& r matches Ok((state, fact))
                &&& state@ == Challenge::created(owner, bump, challenge_id, fee, commission, treasury)
                &&& state@.well_formed()
                &&& fact == (Initialized {
                    challenge_id,
                    owner,
                    treasury,
                    version: State::CURRENT_VERSION,
                })
            },
        }),
{
    if treasury.check_default() {
        return Err(ErrorCode::InvalidInput);
    }
    if commission > 100 {
        return Err(ErrorCode::InvalidCommissionRate);
    }
    if fee == 0 {
        return Err(ErrorCode::InvalidAmount);
    }
    let mut owners: Vec<Identity> = Vec::new();
    owners.push(owner);
    let state = State {
        version: State::CURRENT_VERSION,
        bump,
        challenge_id,
        fee,
        commission,
        status: Status::Pending,
        owner,
        treasury,
        paid: false,
        op_counter: 0,
        owners,
        subscribers: Vec::new(),
        winners_list: Vec::new(),
    };
    assert(state@.owners == seq![owner]);
    Ok((state, Initialized { challenge_id, owner, treasury, version: State::CURRENT_VERSION }))
}

/// Moves the challenge to the status that `status` stands for. An unpaid challenge can be
/// moved anywhere, also out of closed; a paid one can only be closed again.
pub fn set_status(state: &mut State, caller: &Identity, status: u8) -> (r: Result<(), ErrorCode>)
    ensures
        (match old(state)@.status_error(*caller, status) {
            Some(e) => r == Err::<(), ErrorCode>(e) && final(state)@ == old(state)@,
            None => r == Ok::<(), ErrorCode>(()) && final(state)@ == old(state)@.with_status(
                Status::spec_from_code(status).unwrap(),
            ),
        }),
        final(state)@ == (Call::SetStatus { caller: *caller, status }).outcome(old(state)@),
        old(state)@.paid ==> final(state)@.paid,
        old(state)@.well_formed() ==> final(state)@.well_formed(),
{
    match validate_primary_owner(caller, &state.owner) {
        Err(e) => {
            return Err(e);
        },
        Ok(()) => {},
    }
    let target = match Status::from_code(status) {
        Some(target) => target,
        None => {
            return Err(ErrorCode::InvalidStatus);
        },
    };
    if !Status::may_become(state.paid, target) {
        return Err(ErrorCode::InvalidStatus);
    }
    state.status = target;
    state.op_counter = state.op_counter.saturating_add(1);
    Ok(())
}

/// Sets the entry fee of a challenge that is still pending.
pub fn set_fee(state: &mut State, caller: &Identity, fee: u64) -> (r: Result<(), ErrorCode>)
    ensures
        (match old(state)@.fee_error(*caller, fee) {
            Some(e) => r == Err::<(), ErrorCode>(e) && final(state)@ == old(state)@,
            None => r == Ok::<(), ErrorCode>(()) && final(state)@ == old(state)@.with_fee(fee),
        }),
        final(state)@ == (Call::SetFee { caller: *caller, fee }).outcome(old(state)@),
        old(state)@.paid ==> final(state)@.paid,
        old(state)@.well_formed() ==> final(state)@.well_formed(),
{
    match validate_primary_owner(caller, &state.owner) {
        Err(e) => {
            return Err(e);
        },
        Ok(()) => {},
    }
    if fee == 0 {
        return Err(ErrorCode::InvalidAmount);
    }
    if state.status != Status::Pending {
        return Err(ErrorCode::InvalidStatus);
    }
    state.fee = fee;
    state.op_counter = state.op_counter.saturating_add(1);
    Ok(())
}

/// Sets the commission rate of a challenge that is still pending.
pub fn set_commision(state: &mut State, caller: &Identity, commission_percentage: u8) -> (r: Result<
    (),
    ErrorCode,
>)
    ensures
        (match old(state)@.commission_error(*caller, commission_percentage) {
            Some(e) => r == Err::<(), ErrorCode>(e) && final(state)@ == old(state)@,
            None => r == Ok::<(), ErrorCode>(()) && final(state)@ == old(state)@.with_commission(
                commission_percentage,
            ),
        }),
        final(state)@ == (Call::SetCommision { caller: *caller, commission_percentage }).outcome(old(state)@),
        old(state)@.paid ==> final(state)@.paid,
        old(state)@.well_formed() ==> final(state)@.well_formed(),
{
    match validate_primary_owner(caller, &state.owner) {
        Err(e) => {
            return Err(e);
        },
        Ok(()) => {},
    }
    if commission_percentage > 100 {
        return Err(ErrorCode::InvalidCommissionRate);
    }
    if state.status != Status::Pending {
        return Err(ErrorCode::InvalidStatus);
    }
    state.commission = commission_percentage;
    state.op_counter = state.op_counter.saturating_add(1);
    Ok(())
}

/// Pins another treasury.
pub fn set_treasury(state: &mut State, caller: &Identity, new_treasury: Identity) -> (r: Result<
    (),
    ErrorCode,
>)
    ensures
        (match old(state)@.treasury_error(*caller, new_treasury) {
            Some(e) => r == Err::<(), ErrorCode>(e) && final(state)@ == old(state)@,
            None => r == Ok::<(), ErrorCode>(()) && final(state)@ == old(state)@.with_treasury(
                new_treasury,
            ),
        }),
        final(state)@ == (Call::SetTreasury { caller: *caller, new_treasury }).outcome(old(state)@),
        old(state)@.paid ==> final(state)@.paid,
        old(state)@.well_formed() ==> final(state)@.well_formed(),
{
    match validate_primary_owner(caller, &state.owner) {
        Err(e) => {
            return Err(e);
        },
        Ok(()) => {},
    }
    if new_treasury.check_default() {
        return Err(ErrorCode::InvalidInput);
    }
    state.treasury = new_treasury;
    state.op_counter = state.op_counter.saturating_add(1);
    Ok(())
}

/// Lists one more administrator. One who is listed already is not listed again, and that is
/// no error; a new one is refused where the list is full.
pub fn set_owner(state: &mut State, caller: &Identity, new_owner: Identity) -> (r: Result<
    (),
    ErrorCode,
>)
    ensures
        (match old(state)@.add_owner_error(*caller, new_owner) {
            Some(e) => r == Err::<(), ErrorCode>(e) && final(state)@ == old(state)@,
            None => r == Ok::<(), ErrorCode>(()) && final(state)@ == old(state)@.with_owner(
                new_owner,
            ),
        }),
        final(state)@ == (Call::SetOwner { caller: *caller, new_owner }).outcome(old(state)@),
        old(state)@.status != Status::Closed && old(state)@.owners.len() >= State::MAX_OWNERS
            && !old(state)@.owners.contains(new_owner) ==> final(state)@ == old(state)@ && r
            == Err::<(), ErrorCode>(
            if old(state)@.is_primary_owner(*caller) {
                ErrorCode::TooManyOwners
            } else {
                ErrorCode::Unauthorized
            },
        ),
        old(state)@.owners.contains(new_owner) ==> final(state)@ == old(state)@ && r != Err::<
            (),
            ErrorCode,
        >(ErrorCode::TooManyOwners),
        old(state)@.paid ==> final(state)@.paid,
        old(state)@.well_formed() ==> final(state)@.well_formed(),
{
    match validate_primary_owner(caller, &state.owner) {
        Err(e) => {
            return Err(e);
        },
        Ok(()) => {},
    }
    if state.status == Status::Closed {
        return Err(ErrorCode::InvalidStatus);
    }
    if !contains(&state.owners, &new_owner) {
        if state.owners.len() >= State::MAX_OWNERS {
            return Err(ErrorCode::TooManyOwners);
        }
        proof {
            if state@.well_formed() {
                lemma_push_keeps_distinct(state@.owners, new_owner);
            }
        }
        state.owners.push(new_owner);
    }
    Ok(())
}

/// Takes an administrator off the list. Where the user is not on the list nothing changes:
/// that is no error. The only administrator listed cannot be taken off: the list is never
/// left empty.
pub fn remove_owner(state: &mut State, caller: &Identity, user: Identity) -> (r: Result<(), ErrorCode>)
    ensures
        (match old(state)@.remove_owner_error(*caller, user) {
            Some(e) => r == Err::<(), ErrorCode>(e) && final(state)@ == old(state)@,
            None => r == Ok::<(), ErrorCode>(()) && final(state)@ == old(state)@.without_owner(
                user,
            ),
        }),
        final(state)@ == (Call::RemoveOwner { caller: *caller, user }).outcome(old(state)@),
        !old(state)@.owners.contains(user) ==> final(state)@ == old(state)@,
        old(state)@.paid ==> final(state)@.paid,
        old(state)@.well_formed() ==> final(state)@.well_formed(),
{
    match validate_primary_owner(caller, &state.owner) {
        Err(e) => {
            return Err(e);
        },
        Ok(()) => {},
    }
    if state.status == Status::Closed {
        return Err(ErrorCode::InvalidStatus);
    }
    match position(&state.owners, &user) {
        Some(i) => {
            if state.owners.len() <= 1 {
                return Err(ErrorCode::InvalidInput);
            }
            proof {
                lemma_remove_value_at_first(state@.owners, user, i as int);
                if state@.well_formed() {
                    lemma_remove_keeps_distinct(state@.owners, i as int);
                }
            }
            state.owners.remove(i);
        },
        None => {
            proof {
                lemma_remove_value_absent(state@.owners, user);
            }
        },
    }
    Ok(())
}

/// Reads the operation counter for the primary owner.
pub fn get_operation_fee(state: &State, caller: &Identity) -> (r: Result<OperationFeeRead, ErrorCode>)
    ensures
        (match state@.owner_error(*caller) {
            Some(e) => r == Err::<OperationFeeRead, ErrorCode>(e),
            None => r == Ok::<OperationFeeRead, ErrorCode>(
                OperationFeeRead { value: state@.op_counter },
            ),
        }),
{
    match validate_primary_owner(caller, &state.owner) {
        Err(e) => Err(e),
        Ok(()) => Ok(OperationFeeRead { value: state.op_counter }),
    }
}

/// Passes the caller that is the primary owner, and refuses every other.
pub fn is_owner(state: &State, caller: &Identity) -> (r: Result<(), ErrorCode>)
    ensures
        r == refusal(state@.owner_error(*caller)),
{
    validate_primary_owner(caller, &state.owner)
}

/// Reads the token that a challenge is paid in. Challenges are paid in the ledger's own
/// currency and in no token, so there is nothing to read: the call only checks the caller.
pub fn get_erc20_mint(state: &State, caller: &Identity) -> (r: Result<(), ErrorCode>)
    ensures
        r == refusal(state@.owner_error(*caller)),
{
    validate_primary_owner(caller, &state.owner)
}

/// Sets the token that a challenge is paid in. Challenges are paid in the ledger's own
/// currency and in no token, so nothing is set: the call only checks the caller.
pub fn set_erc20_mint(state: &State, caller: &Identity, _mint: Identity) -> (r: Result<(), ErrorCode>)
    ensures
        r == refusal(state@.owner_error(*caller)),
{
    validate_primary_owner(caller, &state.owner)
}

} // verus!
