use vstd::prelude::*;

verus! {

/// Every way a call on a challenge can be refused.
#[derive(Clone, Copy, Debug, PartialEq, Eq, Structural, Hash)]
pub enum ErrorCode {
    // Access control
    OnlyOwner,
    OnlyAllowedUsers,
    // Subscription
    ChallengeInProgressOrExpired,
    InsufficientBalance,
    InsufficientAllowance,
    TokenTransferFailed,
    // Bonus and treasury
    InvalidSnoozupWalletAddress,
    InvalidWinnerAddress,
    ApprovalWinnerFailed,
    TransferToWinnerFailed,
    NoBalanceLeftForSnoozup,
    ApprovalSnoozupWalletFailed,
    TransferToSnoozupWalletFailed,
    // Refund
    InsufficientContractBalance,
    InvalidSubscriberAddress,
    TransferToSubscriberFailed,
    // Everything else
    InvalidCommissionRate,
    InvalidNonce,
    InsufficientFunds,
    TooManyWinners,
    TooManyOwners,
    AlreadyMigrated,
    InvalidInput,
    MissingWinnerAccount,
    MissingSubscriberAccount,
    NoPendingRotation,
    NotPendingOwner,
    RotationTooEarly,
    InvalidAmount,
    Unauthorized,
    InvalidStatus,
    MaxSubscribersReached,
    AlreadySubscribed,
    LamportMathError,
}

} // verus!
