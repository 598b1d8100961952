use vstd::prelude::*;
use crate::access::{refusal, validate_primary_owner};
use crate::calls::Call;
use crate::errors::ErrorCode;
use crate::events::{SubscriptionCancelled, SubscriptionCreated};
use crate::identity::Identity;
use crate::ledger::{pda_pay, Record};
use crate::roster::{
    contains, lemma_push_keeps_distinct, lemma_remove_keeps_distinct, lemma_remove_value_absent,
    lemma_remove_value_at_first, position,
};
use crate::state::{Challenge, State, Status};

verus! {

impl Challenge {
    /// Why `subscriber` cannot join, if they cannot. The checks come in this order: the
    /// challenge is still pending; there is room for one more; the subscriber has not joined
    /// already.
    pub open spec fn admission_error(self, subscriber: Identity) -> Option<ErrorCode> {
        if self.status != Status::Pending {
            Some(ErrorCode::ChallengeInProgressOrExpired)
        } else if self.subscribers.len() >= State::MAX_SUBSCRIBERS {
            Some(ErrorCode::MaxSubscribersReached)
        } else if self.subscribers.contains(subscriber) {
            Some(ErrorCode::AlreadySubscribed)
        } else {
            None
        }
    }

    /// Why a subscription is refused, if it is: the subscriber cannot join, or holds less
    /// than the fee, or the pool cannot take the fee.
    pub open spec fn subscribe_error(self, subscriber: Record, pool: u64) -> Option<ErrorCode> {
        if self.admission_error(subscriber.key) is Some {
            self.admission_error(subscriber.key)
        } else if subscriber.lamports < self.fee {
            Some(ErrorCode::InsufficientBalance)
        } else if pool + self.fee > u64::MAX {
            Some(ErrorCode::LamportMathError)
        } else {
            None
        }
    }

    /// The challenge with `subscriber` added at the end of its subscribers.
    pub open spec fn subscribed(self, subscriber: Identity) -> Challenge {
        Challenge { subscribers: self.subscribers.push(subscriber), ..self }
    }

    /// Why a subscription cannot be canceled, if it cannot: the caller is not the primary
    /// owner, or the challenge is closed.
    pub open spec fn cancel_error(self, caller: Identity) -> Option<ErrorCode> {
        if !self.is_primary_owner(caller) {
            Some(ErrorCode::Unauthorized)
        } else if self.status == Status::Closed {
            Some(ErrorCode::InvalidStatus)
        } else {
            None
        }
    }

    /// The challenge without `subscriber` among its subscribers, the others in their order.
    /// A challenge that does not list the subscriber is left as it is.
    pub open spec fn unsubscribed(self, subscriber: Identity) -> Challenge {
        Challenge { subscribers: self.subscribers.remove_value(subscriber), ..self }
    }
}

/// Passes the subscriber who can join the challenge, and says why another cannot.
pub fn validate_subscription(state: &State, subscriber: &Identity) -> (r: Result<(), ErrorCode>)
    ensures
        r == refusal(state@.admission_error(*subscriber)),
{
    if state.status != Status::Pending {
        return Err(ErrorCode::ChallengeInProgressOrExpired);
    }
    if state.subscribers.len() >= State::MAX_SUBSCRIBERS {
        return Err(ErrorCode::MaxSubscribersReached);
    }
    if contains(&state.subscribers, subscriber) {
        return Err(ErrorCode::AlreadySubscribed);
    }
    Ok(())
}

/// Admits a subscriber: moves the fee from the subscriber's record into the pool and adds
/// the subscriber to the list. A subscription that is refused changes nothing: not the
/// challenge, not the pool, not the subscriber's record.
pub fn subscribe(state: &mut State, subscriber: &mut Record, pool: &mut u64, timestamp: i64) -> (r:
    Result<SubscriptionCreated, ErrorCode>)
    ensures
        (match old(state)@.subscribe_error(*old(subscriber), *old(pool)) {
            Some(e) => {
                &&& r == Err::<SubscriptionCreated, ErrorCode>(e)
                &&& final(state)@ == old(state)@
                &&& *final(pool) == *old(pool)
                &&& *final(subscriber) == *old(subscriber)
            },
            None => {
                &&& r == Ok::<SubscriptionCreated, ErrorCode>(
                    SubscriptionCreated {
                        challenge_id: old(state)@.challenge_id,
                        subscriber: old(subscriber).key,
                        timestamp,
                    },
                )
                &&& final(state)@ == old(state)@.subscribed(old(subscriber).key)
                &&& *final(pool) == *old(pool) + old(state)@.fee
                &&& *final(subscriber) == (Record {
                    lamports: (old(subscriber).lamports - old(state)@.fee) as u64,
                    ..*old(subscriber)
                })
            },
        }),
        final(state)@ == (Call::Subscribe { subscriber: *old(subscriber), pool: *old(pool) }).outcome(old(state)@),
        old(state)@.paid ==> final(state)@.paid,
        old(state)@.well_formed() ==> final(state)@.well_formed(),
{
    let who = subscriber.key;
    let fee_amount = state.fee;
    match validate_subscription(state, &who) {
        Err(e) => {
            return Err(e);
        },
        Ok(()) => {},
    }
    if subscriber.lamports < fee_amount {
        return Err(ErrorCode::InsufficientBalance);
    }
    let mut from_balance: u64 = subscriber.lamports;
    let mut pool_balance: u64 = *pool;
    match pda_pay(&mut from_balance, &mut pool_balance, fee_amount) {
        Err(e) => {
            return Err(e);
        },
        Ok(()) => {},
    }
    proof {
        if state@.well_formed() {
            lemma_push_keeps_distinct(state@.subscribers, who);
        }
    }
    subscriber.lamports = from_balance;
    *pool = pool_balance;
    state.subscribers.push(who);
    Ok(SubscriptionCreated { challenge_id: state.challenge_id, subscriber: who, timestamp })
}

/// Takes a subscriber off the list, and says so in a fact. Where the subscriber is not on
/// the list nothing changes and there is no fact: that is no error.
pub fn cancel_subscription(state: &mut State, caller: &Identity, subscriber: Identity, timestamp: i64) -> (r:
    Result<Option<SubscriptionCancelled>, ErrorCode>)
    ensures
        (match old(state)@.cancel_error(*caller) {
            Some(e) => r == Err::<Option<SubscriptionCancelled>, ErrorCode>(e) && final(state)@
                == old(state)@,
            None => {
                &&& final(state)@ == old(state)@.unsubscribed(subscriber)
                &&& r == Ok::<Option<SubscriptionCancelled>, ErrorCode>(
                    if old(state)@.subscribers.contains(subscriber) {
                        Some(
                            SubscriptionCancelled {
                                challenge_id: old(state)@.challenge_id,
                                subscriber,
                                timestamp,
                            },
                        )
                    } else {
                        None
                    },
                )
            },
        }),
        !old(state)@.subscribers.contains(subscriber) ==> final(state)@ == old(state)@,
        final(state)@ == (Call::CancelSubscription { caller: *caller, subscriber }).outcome(old(state)@),
        old(state)@.paid ==> final(state)@.paid,
        old(state)@.well_formed() ==> final(state)@.well_formed(),
{
    match validate_primary_owner(caller, &state.owner) {
        Err(e) => {
            return Err(e);
        },
        Ok(()) => {},
    }
    if state.status == Status::Closed {
        return Err(ErrorCode::InvalidStatus);
    }
    match position(&state.subscribers, &subscriber) {
        Some(i) => {
            proof {
                lemma_remove_value_at_first(state@.subscribers, subscriber, i as int);
                if state@.well_formed() {
                    lemma_remove_keeps_distinct(state@.subscribers, i as int);
                }
            }
            state.subscribers.remove(i);
            Ok(Some(SubscriptionCancelled { challenge_id: state.challenge_id, subscriber, timestamp }))
        },
        None => {
            proof {
                lemma_remove_value_absent(state@.subscribers, subscriber);
            }
            Ok(None)
        },
    }
}

} // verus!
