use vstd::prelude::*;
use crate::access::validate_allowed_user;
use crate::calls::Call;
use crate::errors::ErrorCode;
use crate::events::{BonusSent, ChallengeClosed, CommisionAndBonusCalculated, CommisionAndBonusCalculation};
use crate::identity::Identity;
use crate::ledger::{
    all_can_take, all_credited, all_receive, lemma_total_amount_of_both, pay_each, pda_pay,
    records_match, total_amount, Record, Transfer,
};
use crate::state::{Challenge, State, Status};

verus! {

/// How a distributable balance is divided: the commission, what is left for the winners,
/// what each winner gets, and what no whole share could take up.
pub struct Split {
    pub commission: nat,
    pub prize_pool: nat,
    pub bonus_each: nat,
    pub leftover: nat,
}

/// The division of `available` at a commission of `rate` percent among `winners` winners.
/// Every quotient is rounded down. The winners share alike, and what their shares do not
/// take up is the leftover.
pub open spec fn split(available: nat, rate: nat, winners: nat) -> Split {
    let commission = available * rate / 100;
    let prize_pool = (available - commission) as nat;
    let bonus_each = if winners > 0 {
        prize_pool / winners
    } else {
        0
    };
    Split {
        commission,
        prize_pool,
        bonus_each,
        leftover: (prize_pool - bonus_each * winners) as nat,
    }
}

/// A commission of at most one hundred percent is at most the whole.
pub proof fn lemma_commission_is_bounded(available: nat, rate: nat)
    requires
        rate <= 100,
    ensures
        available * rate / 100 <= available,
        available * rate <= available * 100,
{
    assert(available * rate <= available * 100) by (nonlinear_arith)
        requires
            rate <= 100,
    ;
    assert((available * 100) / 100 == available) by (nonlinear_arith);
    assert(available * rate / 100 <= (available * 100) / 100) by (nonlinear_arith)
        requires
            available * rate <= available * 100,
    ;
}

/// Equal whole shares of a pool take up all of it but less than one unit per winner.
pub proof fn lemma_shares_fit(pool: nat, winners: nat)
    requires
        winners > 0,
    ensures
        (pool / winners) * winners <= pool,
        pool - (pool / winners) * winners < winners,
{
    assert((pool / winners) * winners <= pool && pool - (pool / winners) * winners < winners)
        by (nonlinear_arith)
        requires
            winners > 0,
    ;
}

/// Nothing is lost in a settlement: the commission, the winners' shares and the leftover
/// add up to the distributable balance exactly. With winners, the leftover is less than one
/// unit per winner; with none, it is all that the commission leaves.
pub proof fn lemma_split_conserves(available: nat, rate: nat, winners: nat)
    requires
        rate <= 100,
    ensures
        ({
            let s = split(available, rate, winners);
            &&& s.commission + s.bonus_each * winners + s.leftover == available
            &&& s.commission + s.prize_pool == available
            &&& s.bonus_each * winners + s.leftover == s.prize_pool
            &&& winners > 0 ==> s.leftover < winners
            &&& winners == 0 ==> s.leftover == available - s.commission
        }),
{
    let s = split(available, rate, winners);
    lemma_commission_is_bounded(available, rate);
    if winners > 0 {
        lemma_shares_fit(s.prize_pool, winners);
    } else {
        assert(s.bonus_each * winners == 0) by (nonlinear_arith)
            requires
                winners == 0,
        ;
    }
}

/// Divides a pool between the commission and the winners: the commission, what is left for
/// the winners, and what each winner gets. A rate above one hundred percent is refused.
pub fn calculate_competition_bonus(total_pool: u64, commission_rate: u8, winners_count: usize) -> (r:
    Result<(u64, u64, u64), ErrorCode>)
    ensures
        commission_rate > 100 ==> r == Err::<(u64, u64, u64), ErrorCode>(
            ErrorCode::InvalidCommissionRate,
        ),
        commission_rate <= 100 ==> ({
            let s = split(total_pool as nat, commission_rate as nat, winners_count as nat);
            &&& r == Ok::<(u64, u64, u64), ErrorCode>(
                (s.commission as u64, s.prize_pool as u64, s.bonus_each as u64),
            )
            &&& s.commission + s.prize_pool == total_pool
            &&& s.bonus_each * winners_count + s.leftover == s.prize_pool
            &&& winners_count > 0 ==> s.leftover < winners_count
            &&& winners_count == 0 ==> s.leftover == s.prize_pool
        }),
{
    if commission_rate > 100 {
        return Err(ErrorCode::InvalidCommissionRate);
    }
    proof {
        lemma_split_conserves(total_pool as nat, commission_rate as nat, winners_count as nat);
        lemma_commission_is_bounded(total_pool as nat, commission_rate as nat);
        assert(total_pool * commission_rate <= u64::MAX * 100) by (nonlinear_arith)
            requires
                total_pool <= u64::MAX,
                commission_rate <= 100,
        ;
    }
    let product: u128 = (total_pool as u128) * (commission_rate as u128);
    let commission_amount: u64 = (product / 100) as u64;
    let bonus_pool: u64 = total_pool - commission_amount;
    let winner_amount: u64 = if winners_count > 0 {
        proof {
            lemma_shares_fit(bonus_pool as nat, winners_count as nat);
            assert((bonus_pool as nat / winners_count as nat) <= bonus_pool) by (nonlinear_arith)
                requires
                    winners_count > 0,
                    (bonus_pool as nat / winners_count as nat) * winners_count <= bonus_pool,
            ;
        }
        bonus_pool / (winners_count as u64)
    } else {
        0
    };
    Ok((commission_amount, bonus_pool, winner_amount))
}

/// What a successful settlement hands back: the facts to publish, in the order in which
/// they came about; the leftover that went to the treasury after the winners' shares; and
/// the payments made out of the pool, in the order in which they were made.
#[derive(Clone, Debug, PartialEq, Eq)]
pub struct Settlement {
    pub calculation: CommisionAndBonusCalculation,
    pub calculated: CommisionAndBonusCalculated,
    pub bonuses: Vec<BonusSent>,
    pub leftover: u64,
    pub closed: ChallengeClosed,
    pub transfers: Vec<Transfer>,
}

/// The payment of `amount` to `to`, where it is more than nothing.
pub open spec fn payment(to: Identity, amount: nat) -> Seq<Transfer> {
    if amount > 0 {
        seq![Transfer { to, amount: amount as u64 }]
    } else {
        Seq::empty()
    }
}

/// The payments of the winners' shares: one to each winner, in the order of the list, where
/// a share is more than nothing.
pub open spec fn share_payments(winners: Seq<Identity>, bonus_each: nat) -> Seq<Transfer> {
    if bonus_each > 0 {
        Seq::new(winners.len(), |i: int| (Transfer { to: winners[i], amount: bonus_each as u64 }))
    } else {
        Seq::empty()
    }
}

/// The payments of a settlement in their order: the commission to the treasury first, then
/// the winners' shares, then the leftover to the treasury. A payment of nothing is not made.
pub open spec fn settlement_payments(
    treasury: Identity,
    winners: Seq<Identity>,
    commission: nat,
    bonus_each: nat,
    leftover: nat,
) -> Seq<Transfer> {
    payment(treasury, commission) + share_payments(winners, bonus_each) + payment(
        treasury,
        leftover,
    )
}

/// The facts that tell the winners of their shares: one for each winner, in the order of
/// the list, where a share is more than nothing, and none where it is nothing.
pub open spec fn bonus_facts(challenge_id: u64, winners: Seq<Identity>, bonus_each: nat, timestamp: i64) -> Seq<
    BonusSent,
> {
    if bonus_each > 0 {
        Seq::new(
            winners.len(),
            |i: int| (BonusSent { challenge_id, subscriber: winners[i], timestamp }),
        )
    } else {
        Seq::empty()
    }
}

/// One payment adds up to its amount.
pub proof fn lemma_payment_adds_up(to: Identity, amount: nat)
    requires
        amount <= u64::MAX,
    ensures
        total_amount(payment(to, amount)) == amount,
{
    let made = payment(to, amount);
    if amount > 0 {
        assert(made.len() == 1);
        assert(made.drop_last().len() == 0);
        assert(total_amount(made) == total_amount(made.drop_last()) + made.last().amount);
        assert(total_amount(made.drop_last()) == 0);
    }
}

/// Equal shares for a list of winners add up to one share for each of them.
pub proof fn lemma_shares_add_up(winners: Seq<Identity>, bonus_each: nat)
    requires
        bonus_each <= u64::MAX,
    ensures
        total_amount(share_payments(winners, bonus_each)) == bonus_each * winners.len(),
    decreases winners.len(),
{
    assert(bonus_each * 0 == 0) by (nonlinear_arith);
    if winners.len() > 0 && bonus_each > 0 {
        let front = winners.drop_last();
        lemma_shares_add_up(front, bonus_each);
        assert(share_payments(winners, bonus_each).drop_last() == share_payments(front, bonus_each));
        assert(bonus_each * winners.len() == bonus_each * front.len() + bonus_each)
            by (nonlinear_arith)
            requires
                winners.len() == front.len() + 1,
        ;
    }
}

/// The payments of a settlement add up to the distributable balance: all of it leaves the
/// pool, and nothing more.
pub proof fn lemma_settlement_pays_out_everything(
    treasury: Identity,
    winners: Seq<Identity>,
    available: nat,
    rate: nat,
)
    requires
        rate <= 100,
        available <= u64::MAX,
    ensures
        ({
            let s = split(available, rate, winners.len());
            total_amount(
                settlement_payments(treasury, winners, s.commission, s.bonus_each, s.leftover),
            ) == available
        }),
{
    let s = split(available, rate, winners.len());
    lemma_split_conserves(available, rate, winners.len());
    let first = payment(treasury, s.commission);
    let shares = share_payments(winners, s.bonus_each);
    let last = payment(treasury, s.leftover);
    assert(s.bonus_each <= s.bonus_each * winners.len() || s.bonus_each == 0) by (nonlinear_arith)
        requires
            winners.len() > 0 || s.bonus_each == 0,
    ;
    lemma_shares_add_up(winners, s.bonus_each);
    lemma_total_amount_of_both(first, shares);
    lemma_total_amount_of_both(first + shares, last);
    lemma_payment_adds_up(treasury, s.commission);
    lemma_payment_adds_up(treasury, s.leftover);
}

impl Challenge {
    /// The division that a settlement of this challenge makes of a pool of `pool` of which
    /// `reserve` must stay behind.
    pub open spec fn settlement_split(self, pool: u64, reserve: u64) -> Split {
        split((pool - reserve) as nat, self.commission as nat, self.winners_list.len())
    }

    /// Why a settlement is refused, if it is. The checks come in this order, and the first
    /// that fails names the error: the caller may act for the challenge; the challenge is
    /// not paid yet; it is not canceled; the treasury record is the pinned treasury; the
    /// pool holds more than the reserve; the rate is a percentage; there is one record for
    /// each winner; each record is the right one for its winner; and no payment would
    /// overflow the record it goes to.
    pub open spec fn settlement_error(
        self,
        caller: Identity,
        pool: u64,
        reserve: u64,
        treasury_wallet: Record,
        payees: Seq<Record>,
    ) -> Option<ErrorCode> {
        let s = self.settlement_split(pool, reserve);
        if !self.is_allowed_user(caller) {
            Some(ErrorCode::Unauthorized)
        } else if self.paid {
            Some(ErrorCode::InvalidStatus)
        } else if self.status == Status::Canceled {
            Some(ErrorCode::InvalidStatus)
        } else if treasury_wallet.key != self.treasury {
            Some(ErrorCode::InvalidInput)
        } else if pool <= reserve {
            Some(ErrorCode::InsufficientContractBalance)
        } else if self.commission > 100 {
            Some(ErrorCode::InvalidCommissionRate)
        } else if payees.len() != self.winners_list.len() {
            Some(ErrorCode::MissingWinnerAccount)
        } else if !all_receive(payees, self.winners_list) {
            Some(ErrorCode::InvalidWinnerAddress)
        } else if treasury_wallet.lamports + s.commission + s.leftover > u64::MAX {
            Some(ErrorCode::LamportMathError)
        } else if !all_can_take(payees, s.bonus_each) {
            Some(ErrorCode::LamportMathError)
        } else {
            None
        }
    }

    /// The challenge after its settlement: paid, closed, and its counter advanced by one
    /// and by one more for each winner.
    pub open spec fn settled(self) -> Challenge {
        Challenge { paid: true, status: Status::Closed, ..self }.counted(
            1 + self.winners_list.len(),
        )
    }
}

/// The facts that tell the winners of their shares.
fn report_bonuses(challenge_id: u64, winners: &Vec<Identity>, bonus_each: u64, timestamp: i64) -> (facts:
    Vec<BonusSent>)
    ensures
        facts@ == bonus_facts(challenge_id, winners@, bonus_each as nat, timestamp),
{
    let mut facts: Vec<BonusSent> = Vec::new();
    if bonus_each > 0 {
        let mut i: usize = 0;
        while i < winners.len()
            invariant
                i <= winners@.len(),
                bonus_each > 0,
                facts@ == bonus_facts(
                    challenge_id,
                    winners@.take(i as int),
                    bonus_each as nat,
                    timestamp,
                ),
            decreases winners@.len() - i,
        {
            facts.push(BonusSent { challenge_id, subscriber: winners[i], timestamp });
            i += 1;
        }
        assert(winners@.take(winners@.len() as int) == winners@);
    }
    facts
}

/// The payments of a settlement in their order.
fn list_payments(
    treasury: Identity,
    winners: &Vec<Identity>,
    commission: u64,
    bonus_each: u64,
    leftover: u64,
) -> (transfers: Vec<Transfer>)
    ensures
        transfers@ == settlement_payments(
            treasury,
            winners@,
            commission as nat,
            bonus_each as nat,
            leftover as nat,
        ),
{
    let mut transfers: Vec<Transfer> = Vec::new();
    if commission > 0 {
        transfers.push(Transfer { to: treasury, amount: commission });
    }
    if bonus_each > 0 {
        let mut i: usize = 0;
        while i < winners.len()
            invariant
                i <= winners@.len(),
                bonus_each > 0,
                transfers@ == payment(treasury, commission as nat) + share_payments(
                    winners@.take(i as int),
                    bonus_each as nat,
                ),
            decreases winners@.len() - i,
        {
            transfers.push(Transfer { to: winners[i], amount: bonus_each });
            i += 1;
        }
        assert(winners@.take(winners@.len() as int) == winners@);
    }
    if leftover > 0 {
        transfers.push(Transfer { to: treasury, amount: leftover });
    }
    transfers
}

/// Settles a challenge: splits what the pool holds above the reserve between the treasury
/// and the declared winners, pays it out, and latches the challenge as paid and closed.
///
/// The commission goes to the treasury first, then each winner's share to the winner's
/// record in the order of the list, then the leftover to the treasury. The records are
/// checked, all of them, before the first payment is made. A settlement that is refused
/// changes nothing: not the challenge, not the pool, not a record.
///
/// `pool` is what the challenge's own record holds, and `reserve` what must stay in it.
/// Each record handed in counts for itself: where the treasury is also a winner, the
/// treasury's record gets the commission and the leftover, and the winner's record the
/// share.
pub fn send_bonus_to_winners(
    state: &mut State,
    caller: &Identity,
    pool: &mut u64,
    reserve: u64,
    treasury_wallet: &mut Record,
    payees: &mut Vec<Record>,
    timestamp: i64,
) -> (r: Result<Settlement, ErrorCode>)
    ensures
        (match old(state)@.settlement_error(
            *caller,
            *old(pool),
            reserve,
            *old(treasury_wallet),
            old(payees)@,
        ) {
            Some(e) => {
                &&& r == Err::<Settlement, ErrorCode>(e)
                &&& final(state)@ == old(state)@
                &&& *final(pool) == *old(pool)
                &&& *final(treasury_wallet) == *old(treasury_wallet)
                &&& final(payees)@ == old(payees)@
            },
            None => {
                let s = old(state)@.settlement_split(*old(pool), reserve);
                &&& r matches Ok(done)
                &&& done.calculation == (CommisionAndBonusCalculation {
                    balance: (*old(pool) - reserve) as u64,
                    challenge_balance: s.prize_pool as u64,
                    timestamp,
                })
                &&& done.calculated == (CommisionAndBonusCalculated {
                    commission: s.commission as u64,
                    bonus: s.bonus_each as u64,
                    timestamp,
                })
                &&& done.bonuses@ == bonus_facts(
                    old(state)@.challenge_id,
                    old(state)@.winners_list,
                    s.bonus_each,
                    timestamp,
                )
                &&& done.leftover == s.leftover
                &&& s.commission + s.bonus_each * old(state)@.winners_list.len() + s.leftover
                    == *old(pool) - reserve
                &&& old(state)@.winners_list.len() > 0 ==> s.leftover < old(
                    state,
                )@.winners_list.len()
                &&& old(state)@.winners_list.len() == 0 ==> s.leftover == *old(pool) - reserve
                    - s.commission
                &&& done.closed == (ChallengeClosed {
                    challenge_id: old(state)@.challenge_id,
                    timestamp,
                })
                &&& done.transfers@ == settlement_payments(
                    old(state)@.treasury,
                    old(state)@.winners_list,
                    s.commission,
                    s.bonus_each,
                    s.leftover,
                )
                &&& final(state)@ == old(state)@.settled()
                &&& *final(pool) == reserve
                &&& *final(treasury_wallet) == old(treasury_wallet).credited(
                    s.commission + s.leftover,
                )
                &&& final(payees)@ == all_credited(old(payees)@, s.bonus_each)
            },
        }),
        old(state)@.paid ==> r == Err::<Settlement, ErrorCode>(
            if old(state)@.is_allowed_user(*caller) {
                ErrorCode::InvalidStatus
            } else {
                ErrorCode::Unauthorized
            },
        ),
        final(state)@ == (Call::SendBonusToWinners {
            caller: *caller,
            pool: *old(pool),
            reserve,
            treasury_wallet: *old(treasury_wallet),
            payees: old(payees)@,
        }).outcome(old(state)@),
        old(state)@.paid ==> final(state)@.paid,
        old(state)@.well_formed() ==> final(state)@.well_formed(),
{
    match validate_allowed_user(caller, state) {
        Err(e) => {
            return Err(e);
        },
        Ok(()) => {},
    }
    if state.paid {
        return Err(ErrorCode::InvalidStatus);
    }
    if state.status == Status::Canceled {
        return Err(ErrorCode::InvalidStatus);
    }
    if treasury_wallet.key != state.treasury {
        return Err(ErrorCode::InvalidInput);
    }
    let total: u64 = *pool;
    if total <= reserve {
        return Err(ErrorCode::InsufficientContractBalance);
    }
    let available: u64 = total - reserve;
    let winners_len: usize = state.winners_list.len();
    let (commission, prize_pool, bonus_each) = match calculate_competition_bonus(
        available,
        state.commission,
        winners_len,
    ) {
        Err(e) => {
            return Err(e);
        },
        Ok(amounts) => amounts,
    };
    proof {
        lemma_split_conserves(available as nat, state@.commission as nat, winners_len as nat);
    }
    let shares: u64 = bonus_each * (winners_len as u64);
    let leftover: u64 = prize_pool - shares;
    assert(commission + shares + leftover == available);
    if payees.len() != winners_len {
        return Err(ErrorCode::MissingWinnerAccount);
    }
    if !records_match(payees, &state.winners_list) {
        return Err(ErrorCode::InvalidWinnerAddress);
    }
    let mut pool_balance: u64 = total;
    let mut treasury_balance: u64 = treasury_wallet.lamports;
    let mut paid_out: Vec<Record> = payees.clone();
    assert(paid_out@ == payees@);
    if commission > 0 {
        match pda_pay(&mut pool_balance, &mut treasury_balance, commission) {
            Err(e) => {
                return Err(e);
            },
            Ok(()) => {},
        }
    }
    if bonus_each > 0 {
        assert(bonus_each * paid_out@.len() == shares);
        match pay_each(&mut pool_balance, &mut paid_out, bonus_each) {
            Err(e) => {
                return Err(e);
            },
            Ok(()) => {},
        }
    } else {
        assert(shares == 0) by (nonlinear_arith)
            requires
                shares == bonus_each * winners_len,
                bonus_each == 0,
        ;
    }
    assert(pool_balance == total - commission - shares);
    if leftover > 0 {
        match pda_pay(&mut pool_balance, &mut treasury_balance, leftover) {
            Err(e) => {
                return Err(e);
            },
            Ok(()) => {},
        }
    }
    let settlement = Settlement {
        calculation: CommisionAndBonusCalculation {
            balance: available,
            challenge_balance: prize_pool,
            timestamp,
        },
        calculated: CommisionAndBonusCalculated { commission, bonus: bonus_each, timestamp },
        bonuses: report_bonuses(state.challenge_id, &state.winners_list, bonus_each, timestamp),
        leftover,
        closed: ChallengeClosed { challenge_id: state.challenge_id, timestamp },
        transfers: list_payments(
            state.treasury,
            &state.winners_list,
            commission,
            bonus_each,
            leftover,
        ),
    };
    *pool = pool_balance;
    treasury_wallet.lamports = treasury_balance;
    *payees = paid_out;
    state.paid = true;
    state.status = Status::Closed;
    state.op_counter = state.op_counter.saturating_add(1).saturating_add(winners_len as u64);
    Ok(settlement)
}

} // verus!
