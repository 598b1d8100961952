use vstd::prelude::*;
use crate::admin::creation_error;
use crate::errors::ErrorCode;
use crate::identity::Identity;
use crate::ledger::Record;
use crate::roster::{
    lemma_filter_keeps_distinct, lemma_push_keeps_distinct, lemma_remove_keeps_distinct, stays,
};
use crate::state::{Challenge, State, Status};
use crate::winners::lemma_declared_is_well_formed;

verus! {

/// A call that can change a challenge, with everything it is made with: the caller, the
/// arguments, and the balances and records that the ledger shows at the time.
#[allow(inconsistent_fields)]
pub enum Call {
    Subscribe { subscriber: Record, pool: u64 },
    CancelSubscription { caller: Identity, subscriber: Identity },
    SetWinnersList { caller: Identity, winners: Seq<Identity> },
    SendBonusToWinners {
        caller: Identity,
        pool: u64,
        reserve: u64,
        treasury_wallet: Record,
        payees: Seq<Record>,
    },
    RefundBatch {
        caller: Identity,
        subscribers: Seq<Identity>,
        pool: u64,
        reserve: u64,
        records: Seq<Record>,
    },
    SetStatus { caller: Identity, status: u8 },
    SetFee { caller: Identity, fee: u64 },
    SetCommision { caller: Identity, commission_percentage: u8 },
    SetTreasury { caller: Identity, new_treasury: Identity },
    SetOwner { caller: Identity, new_owner: Identity },
    RemoveOwner { caller: Identity, user: Identity },
}

impl Call {
    /// Why the call is refused on the challenge `before`, if it is.
    pub open spec fn error(self, before: Challenge) -> Option<ErrorCode> {
        match self {
            Call::Subscribe { subscriber, pool } => before.subscribe_error(subscriber, pool),
            Call::CancelSubscription { caller, subscriber } => before.cancel_error(caller),
            Call::SetWinnersList { caller, winners } => before.declare_error(caller, winners),
            Call::SendBonusToWinners { caller, pool, reserve, treasury_wallet, payees } =>
                before.settlement_error(caller, pool, reserve, treasury_wallet, payees),
            Call::RefundBatch { caller, subscribers, pool, reserve, records } => before.refund_error(
                caller,
                subscribers,
                pool,
                reserve,
                records,
            ),
            Call::SetStatus { caller, status } => before.status_error(caller, status),
            Call::SetFee { caller, fee } => before.fee_error(caller, fee),
            Call::SetCommision { caller, commission_percentage } => before.commission_error(
                caller,
                commission_percentage,
            ),
            Call::SetTreasury { caller, new_treasury } => before.treasury_error(caller, new_treasury),
            Call::SetOwner { caller, new_owner } => before.add_owner_error(caller, new_owner),
            Call::RemoveOwner { caller, user } => before.remove_owner_error(caller, user),
        }
    }

    /// The challenge after the call: changed as the call says where the call is accepted,
    /// and as it was before where the call is refused.
    pub open spec fn outcome(self, before: Challenge) -> Challenge {
        if self.error(before) is Some {
            before
        } else {
            match self {
                Call::Subscribe { subscriber, pool } => before.subscribed(subscriber.key),
                Call::CancelSubscription { caller, subscriber } => before.unsubscribed(subscriber),
                Call::SetWinnersList { caller, winners } => before.declared(winners),
                Call::SendBonusToWinners { caller, pool, reserve, treasury_wallet, payees } =>
                    before.settled(),
                Call::RefundBatch { caller, subscribers, pool, reserve, records } => before.refunded(
                    subscribers,
                ),
                Call::SetStatus { caller, status } => before.with_status(
                    Status::spec_from_code(status).unwrap(),
                ),
                Call::SetFee { caller, fee } => before.with_fee(fee),
                Call::SetCommision { caller, commission_percentage } => before.with_commission(
                    commission_percentage,
                ),
                Call::SetTreasury { caller, new_treasury } => before.with_treasury(new_treasury),
                Call::SetOwner { caller, new_owner } => before.with_owner(new_owner),
                Call::RemoveOwner { caller, user } => before.without_owner(user),
            }
        }
    }
}

/// The challenge after a series of calls, made one after another.
pub open spec fn run(start: Challenge, calls: Seq<Call>) -> Challenge
    decreases calls.len(),
{
    if calls.len() == 0 {
        start
    } else {
        calls.last().outcome(run(start, calls.drop_last()))
    }
}

/// No call clears the latch: a challenge that is paid before a call is paid after it,
/// whether the call is accepted or refused.
pub proof fn lemma_paid_is_monotone(before: Challenge, call: Call)
    ensures
        before.paid ==> call.outcome(before).paid,
{
}

/// A challenge that is paid stays paid for the rest of its life, whatever calls follow.
pub proof fn lemma_paid_stays_paid(start: Challenge, calls: Seq<Call>)
    requires
        start.paid,
    ensures
        run(start, calls).paid,
    decreases calls.len(),
{
    if calls.len() > 0 {
        lemma_paid_stays_paid(start, calls.drop_last());
        lemma_paid_is_monotone(run(start, calls.drop_last()), calls.last());
    }
}

/// No call makes the operation counter fall.
pub proof fn lemma_counter_never_falls(before: Challenge, call: Call)
    ensures
        call.outcome(before).op_counter >= before.op_counter,
{
}

/// Every call leaves a well-formed challenge well-formed.
pub proof fn lemma_calls_keep_well_formed(before: Challenge, call: Call)
    requires
        before.well_formed(),
    ensures
        call.outcome(before).well_formed(),
{
    if call.error(before) is None {
        match call {
            Call::Subscribe { subscriber, pool } => {
                lemma_push_keeps_distinct(before.subscribers, subscriber.key);
            },
            Call::CancelSubscription { caller, subscriber } => {
                before.subscribers.index_of_first_ensures(subscriber);
                if before.subscribers.contains(subscriber) {
                    lemma_remove_keeps_distinct(
                        before.subscribers,
                        before.subscribers.index_of_first(subscriber).unwrap(),
                    );
                }
            },
            Call::SetWinnersList { caller, winners } => {
                lemma_declared_is_well_formed(before.winners_list, winners);
            },
            Call::SendBonusToWinners { caller, pool, reserve, treasury_wallet, payees } => {},
            Call::RefundBatch { caller, subscribers, pool, reserve, records } => {
                lemma_filter_keeps_distinct(before.subscribers, stays(subscribers));
            },
            Call::SetStatus { caller, status } => {},
            Call::SetFee { caller, fee } => {},
            Call::SetCommision { caller, commission_percentage } => {},
            Call::SetTreasury { caller, new_treasury } => {},
            Call::SetOwner { caller, new_owner } => {
                if !before.owners.contains(new_owner) {
                    lemma_push_keeps_distinct(before.owners, new_owner);
                }
            },
            Call::RemoveOwner { caller, user } => {
                before.owners.index_of_first_ensures(user);
                if before.owners.contains(user) {
                    lemma_remove_keeps_distinct(
                        before.owners,
                        before.owners.index_of_first(user).unwrap(),
                    );
                }
            },
        }
    }
}

/// Every challenge that a series of calls makes of a well-formed challenge is well-formed.
pub proof fn lemma_run_keeps_well_formed(start: Challenge, calls: Seq<Call>)
    requires
        start.well_formed(),
    ensures
        run(start, calls).well_formed(),
    decreases calls.len(),
{
    if calls.len() > 0 {
        lemma_run_keeps_well_formed(start, calls.drop_last());
        lemma_calls_keep_well_formed(run(start, calls.drop_last()), calls.last());
    }
}

/// A challenge is well-formed from its creation on: a challenge that was created with
/// terms that were accepted is well-formed, and so is what any series of calls makes of it.
pub proof fn lemma_challenge_is_well_formed_for_life(
    owner: Identity,
    bump: u8,
    challenge_id: u64,
    fee: u64,
    commission: u8,
    treasury: Identity,
    calls: Seq<Call>,
)
    requires
        creation_error(fee, commission, treasury) is None,
    ensures
        run(
            Challenge::created(owner, bump, challenge_id, fee, commission, treasury),
            calls,
        ).well_formed(),
{
    let start = Challenge::created(owner, bump, challenge_id, fee, commission, treasury);
    assert(start.owners == seq![owner]);
    lemma_run_keeps_well_formed(start, calls);
}

/// A settled challenge is frozen. After any call it is still paid and closed, with the fee,
/// the commission rate, the winners and the subscribers it had.
pub proof fn lemma_settled_challenge_is_frozen(before: Challenge, call: Call)
    requires
        before.is_terminal(),
    ensures
        call.outcome(before).is_terminal(),
        call.outcome(before).fee == before.fee,
        call.outcome(before).commission == before.commission,
        call.outcome(before).winners_list == before.winners_list,
        call.outcome(before).subscribers == before.subscribers,
{
}

/// A settled challenge stays frozen for the rest of its life: whatever calls follow, it is
/// paid and closed, with the fee, the commission rate, the winners and the subscribers it
/// had when it was settled.
pub proof fn lemma_settled_challenge_stays_frozen(start: Challenge, calls: Seq<Call>)
    requires
        start.is_terminal(),
    ensures
        run(start, calls).is_terminal(),
        run(start, calls).fee == start.fee,
        run(start, calls).commission == start.commission,
        run(start, calls).winners_list == start.winners_list,
        run(start, calls).subscribers == start.subscribers,
    decreases calls.len(),
{
    if calls.len() > 0 {
        lemma_settled_challenge_stays_frozen(start, calls.drop_last());
        lemma_settled_challenge_is_frozen(run(start, calls.drop_last()), calls.last());
    }
}

/// A settlement is made once. After a settlement that was accepted, and whatever calls came
/// after it, an attempt to settle again is refused: as out of order where the caller may
/// act for the challenge, and as unauthorized where not.
pub proof fn lemma_settlement_is_one_shot(before: Challenge, first: Call, between: Seq<Call>, second: Call)
    requires
        first is SendBonusToWinners,
        first.error(before) is None,
        second is SendBonusToWinners,
    ensures
        ({
            let later = run(first.outcome(before), between);
            &&& later.paid
            &&& second.outcome(later) == later
            &&& second.error(later) == Some(
                if later.is_allowed_user(second->SendBonusToWinners_caller) {
                    ErrorCode::InvalidStatus
                } else {
                    ErrorCode::Unauthorized
                },
            )
        }),
{
    lemma_paid_stays_paid(first.outcome(before), between);
}

/// Nobody subscribes twice. On a pending challenge that has room, a subscription by an
/// identity that is already subscribed is refused as a duplicate, and the challenge stays as
/// it was.
pub proof fn lemma_duplicate_subscription_is_refused(before: Challenge, subscriber: Record, pool: u64)
    requires
        before.status == Status::Pending,
        before.subscribers.len() < State::MAX_SUBSCRIBERS,
        before.subscribers.contains(subscriber.key),
    ensures
        before.subscribe_error(subscriber, pool) == Some(ErrorCode::AlreadySubscribed),
        (Call::Subscribe { subscriber, pool }).outcome(before) == before,
{
}

/// An identity whose subscription was accepted is subscribed, so that its next subscription
/// meets the check for duplicates.
pub proof fn lemma_subscriber_is_listed(before: Challenge, subscriber: Record, pool: u64)
    requires
        before.subscribe_error(subscriber, pool) is None,
    ensures
        (Call::Subscribe { subscriber, pool }).outcome(before).subscribers.contains(subscriber.key),
{
    let after = before.subscribed(subscriber.key);
    assert(after.subscribers[before.subscribers.len() as int] == subscriber.key);
}

/// A batch of refunds in which some record is not the record of the identity at its place
/// is refused, and the challenge stays as it was. Where nothing else is wrong with the
/// batch, it is refused for that record.
pub proof fn lemma_misaligned_refund_is_refused(
    before: Challenge,
    caller: Identity,
    refunded: Seq<Identity>,
    pool: u64,
    reserve: u64,
    records: Seq<Record>,
    n: int,
)
    requires
        0 <= n < refunded.len(),
        n < records.len(),
        records[n].key != refunded[n],
    ensures
        before.refund_error(caller, refunded, pool, reserve, records) is Some,
        (Call::RefundBatch { caller, subscribers: refunded, pool, reserve, records }).outcome(before)
            == before,
        before.is_primary_owner(caller) && before.fee * refunded.len() <= pool - reserve
            && records.len() == refunded.len() ==> before.refund_error(
            caller,
            refunded,
            pool,
            reserve,
            records,
        ) == Some(ErrorCode::InvalidSubscriberAddress),
{
    assert(!records[n].receives_for(refunded[n]));
}

/// The list of administrators has room for five. On a challenge that is not closed, an
/// attempt to add a new administrator to a full list is refused and the list stays as it
/// is: as one too many where the caller is the primary owner, and as unauthorized where
/// not.
pub proof fn lemma_owner_list_is_capped(before: Challenge, caller: Identity, new_owner: Identity)
    requires
        before.status != Status::Closed,
        before.owners.len() >= State::MAX_OWNERS,
        !before.owners.contains(new_owner),
    ensures
        before.add_owner_error(caller, new_owner) == Some(
            if before.is_primary_owner(caller) {
                ErrorCode::TooManyOwners
            } else {
                ErrorCode::Unauthorized
            },
        ),
        (Call::SetOwner { caller, new_owner }).outcome(before) == before,
{
}

/// An administrator is listed once. On a challenge that is not closed, adding one who is
/// listed already changes nothing and is never one too many, full list or not: it is
/// accepted from the primary owner, and refused only where the caller is not the primary
/// owner.
pub proof fn lemma_listed_administrator_is_not_added_again(
    before: Challenge,
    caller: Identity,
    new_owner: Identity,
)
    requires
        before.status != Status::Closed,
        before.owners.contains(new_owner),
    ensures
        before.add_owner_error(caller, new_owner) == if before.is_primary_owner(caller) {
            None
        } else {
            Some(ErrorCode::Unauthorized)
        },
        (Call::SetOwner { caller, new_owner }).outcome(before) == before,
        before.with_owner(new_owner) == before,
{
}

} // verus!
