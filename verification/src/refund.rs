use vstd::prelude::*;
use crate::access::validate_primary_owner;
use crate::calls::Call;
use crate::errors::ErrorCode;
use crate::events::RefundSent;
use crate::identity::Identity;
use crate::ledger::{all_can_take, all_credited, all_receive, pay_each, records_match, Record};
use crate::roster::{lemma_filter_keeps_distinct, stays, without};
use crate::state::{Challenge, State};

verus! {

/// The facts that tell of a batch of refunds: one for each entry, in the order of the batch.
pub open spec fn refund_facts(challenge_id: u64, refunded: Seq<Identity>, timestamp: i64) -> Seq<
    RefundSent,
> {
    Seq::new(
        refunded.len(),
        |i: int| (RefundSent { challenge_id, subscriber: refunded[i], timestamp }),
    )
}

impl Challenge {
    /// Why a batch of refunds is refused, if it is. The checks come in this order, and the
    /// first that fails names the error: the caller is the primary owner; the fees to hand
    /// back add up without overflow; the pool holds them above the reserve; there is one
    /// record for each entry; each record is the right one for its entry; no refund would
    /// overflow the record it goes to; and the challenge is not paid. So a paid challenge
    /// refuses as out of order exactly the batches that it would otherwise pay.
    pub open spec fn refund_error(
        self,
        caller: Identity,
        refunded: Seq<Identity>,
        pool: u64,
        reserve: u64,
        records: Seq<Record>,
    ) -> Option<ErrorCode> {
        let available = if pool >= reserve {
            pool - reserve
        } else {
            0
        };
        if !self.is_primary_owner(caller) {
            Some(ErrorCode::Unauthorized)
        } else if self.fee * refunded.len() > u64::MAX {
            Some(ErrorCode::LamportMathError)
        } else if available < self.fee * refunded.len() {
            Some(ErrorCode::InsufficientContractBalance)
        } else if records.len() != refunded.len() {
            Some(ErrorCode::MissingSubscriberAccount)
        } else if !all_receive(records, refunded) {
            Some(ErrorCode::InvalidSubscriberAddress)
        } else if !all_can_take(records, self.fee as nat) {
            Some(ErrorCode::LamportMathError)
        } else if self.paid {
            Some(ErrorCode::InvalidStatus)
        } else {
            None
        }
    }

    /// The challenge after a batch of refunds: everyone in the batch is off the list of
    /// subscribers, the others stay in their order, and the counter is advanced by one and
    /// by one more for each entry.
    pub open spec fn refunded(self, refunded: Seq<Identity>) -> Challenge {
        Challenge { subscribers: self.subscribers.filter(stays(refunded)), ..self }.counted(
            1 + refunded.len(),
        )
    }
}

/// The facts that tell of a batch of refunds.
fn report_refunds(challenge_id: u64, refunded: &Vec<Identity>, timestamp: i64) -> (facts: Vec<
    RefundSent,
>)
    ensures
        facts@ == refund_facts(challenge_id, refunded@, timestamp),
{
    let mut facts: Vec<RefundSent> = Vec::new();
    let mut i: usize = 0;
    while i < refunded.len()
        invariant
            i <= refunded@.len(),
            facts@ == refund_facts(challenge_id, refunded@.take(i as int), timestamp),
        decreases refunded@.len() - i,
    {
        facts.push(RefundSent { challenge_id, subscriber: refunded[i], timestamp });
        i += 1;
    }
    assert(refunded@.take(refunded@.len() as int) == refunded@);
    facts
}

/// Hands the fee back to each identity in the batch, into the record supplied for it, and
/// takes everyone in the batch off the list of subscribers.
///
/// The records are checked, all of them, before the first refund is paid, and the list of
/// subscribers changes only after the last. A batch that is refused changes nothing: not
/// the challenge, not the pool, not a record.
///
/// A challenge that is paid hands nothing back, not even to an empty batch: a batch with
/// nothing else wrong with it is refused as out of order, and the subscribers stay fixed
/// for good.
///
/// `pool` is what the challenge's own record holds, and `reserve` what must stay in it.
/// The batch is taken as it is: an identity that is in it twice is paid twice, each time
/// into the record at that place, and an identity that never subscribed is paid too.
pub fn refund_batch(
    state: &mut State,
    caller: &Identity,
    subscribers: Vec<Identity>,
    pool: &mut u64,
    reserve: u64,
    records: &mut Vec<Record>,
    timestamp: i64,
) -> (r: Result<Vec<RefundSent>, ErrorCode>)
    ensures
        (match old(state)@.refund_error(*caller, subscribers@, *old(pool), reserve, old(records)@) {
            Some(e) => {
                &&& r == Err::<Vec<RefundSent>, ErrorCode>(e)
                &&& final(state)@ == old(state)@
                &&& *final(pool) == *old(pool)
                &&& final(records)@ == old(records)@
            },
            None => {
                &&& r matches Ok(facts)
                &&& facts@ == refund_facts(old(state)@.challenge_id, subscribers@, timestamp)
                &&& final(state)@ == old(state)@.refunded(subscribers@)
                &&& *final(pool) == *old(pool) - old(state)@.fee * subscribers@.len()
                &&& final(records)@ == all_credited(old(records)@, old(state)@.fee as nat)
            },
        }),
        final(state)@ == (Call::RefundBatch {
            caller: *caller,
            subscribers: subscribers@,
            pool: *old(pool),
            reserve,
            records: old(records)@,
        }).outcome(old(state)@),
        old(state)@.paid ==> final(state)@ == old(state)@ && r is Err,
        old(state)@.well_formed() ==> final(state)@.well_formed(),
{
    match validate_primary_owner(caller, &state.owner) {
        Err(e) => {
            return Err(e);
        },
        Ok(()) => {},
    }
    let available: u64 = (*pool).saturating_sub(reserve);
    let count: usize = subscribers.len();
    let need: u64 = match state.fee.checked_mul(count as u64) {
        Some(need) => need,
        None => {
            return Err(ErrorCode::LamportMathError);
        },
    };
    if available < need {
        return Err(ErrorCode::InsufficientContractBalance);
    }
    if records.len() != count {
        return Err(ErrorCode::MissingSubscriberAccount);
    }
    if !records_match(records, &subscribers) {
        return Err(ErrorCode::InvalidSubscriberAddress);
    }
    // The refunds are worked out on the side, so that a record that cannot take its refund
    // is found before the latch is tested, and nothing is kept of a batch that is refused.
    let mut pool_balance: u64 = *pool;
    let mut paid_out: Vec<Record> = records.clone();
    assert(paid_out@ == records@);
    assert(state.fee * paid_out@.len() == need);
    match pay_each(&mut pool_balance, &mut paid_out, state.fee) {
        Err(e) => {
            return Err(e);
        },
        Ok(()) => {},
    }
    if state.paid {
        return Err(ErrorCode::InvalidStatus);
    }
    *pool = pool_balance;
    *records = paid_out;
    proof {
        if state@.well_formed() {
            lemma_filter_keeps_distinct(state@.subscribers, stays(subscribers@));
        }
    }
    let facts = report_refunds(state.challenge_id, &subscribers, timestamp);
    state.subscribers = without(&state.subscribers, &subscribers);
    state.op_counter = state.op_counter.saturating_add(1).saturating_add(count as u64);
    Ok(facts)
}

} // verus!
