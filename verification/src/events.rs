use vstd::prelude::*;
use crate::identity::Identity;

verus! {

/// A participant paid the fee and joined the challenge.
#[derive(Clone, Copy, Debug, PartialEq, Eq)]
pub struct SubscriptionCreated {
    pub challenge_id: u64,
    pub subscriber: Identity,
    pub timestamp: i64,
}

/// The owner removed a participant from the challenge.
#[derive(Clone, Copy, Debug, PartialEq, Eq)]
pub struct SubscriptionCancelled {
    pub challenge_id: u64,
    pub subscriber: Identity,
    pub timestamp: i64,
}

/// What a settlement found before it paid anyone: the distributable balance and the part
/// of it that goes to the winners.
#[derive(Clone, Copy, Debug, PartialEq, Eq)]
pub struct CommisionAndBonusCalculation {
    pub balance: u64,
    pub challenge_balance: u64,
    pub timestamp: i64,
}

/// What a settlement decided to pay: the commission and the share of each winner.
#[derive(Clone, Copy, Debug, PartialEq, Eq)]
pub struct CommisionAndBonusCalculated {
    pub commission: u64,
    pub bonus: u64,
    pub timestamp: i64,
}

/// One winner received their share.
#[derive(Clone, Copy, Debug, PartialEq, Eq)]
pub struct BonusSent {
    pub challenge_id: u64,
    pub subscriber: Identity,
    pub timestamp: i64,
}

/// One participant got the fee back.
#[derive(Clone, Copy, Debug, PartialEq, Eq)]
pub struct RefundSent {
    pub challenge_id: u64,
    pub subscriber: Identity,
    pub timestamp: i64,
}

/// The operation counter as the owner read it.
#[derive(Clone, Copy, Debug, PartialEq, Eq)]
pub struct OperationFeeRead {
    pub value: u64,
}

/// A challenge was created.
#[derive(Clone, Copy, Debug, PartialEq, Eq)]
pub struct Initialized {
    pub challenge_id: u64,
    pub owner: Identity,
    pub treasury: Identity,
    pub version: u8,
}

/// A challenge was settled and closed for good.
#[derive(Clone, Copy, Debug, PartialEq, Eq)]
pub struct ChallengeClosed {
    pub challenge_id: u64,
    pub timestamp: i64,
}

} // verus!
