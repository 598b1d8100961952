//! A challenge escrow: participants pay a fee into a pool, the owner declares winners, and a
//! settlement splits the pool between a treasury and the winners, once. Every rule of it is
//! here, stated in a contract and proved; reading and writing the ledger is left to the
//! caller, who hands in balances and gets balances back.

/// Who may do what.
pub mod access;
/// Creating a challenge and changing its terms, its status and its administrators.
pub mod admin;
/// Every call as a value, and what holds of all of them.
pub mod calls;
/// The ways a call can be refused.
pub mod errors;
/// The facts that calls report.
pub mod events;
/// Who is who.
pub mod identity;
/// Records, balances and payments.
pub mod ledger;
/// Handing fees back.
pub mod refund;
/// Lists of identities.
pub mod roster;
/// Splitting the pool and paying it out.
pub mod settlement;
/// The challenge itself.
pub mod state;
/// Joining and leaving.
pub mod subscription;
/// Declaring winners.
pub mod winners;

pub use access::{validate_allowed_user, validate_primary_owner};
pub use admin::{
    get_erc20_mint, get_operation_fee, initialize, is_owner, remove_owner, set_commision,
    set_erc20_mint, set_fee, set_owner, set_status, set_treasury,
};
pub use errors::ErrorCode;
pub use events::{
    BonusSent, ChallengeClosed, CommisionAndBonusCalculated, CommisionAndBonusCalculation,
    Initialized, OperationFeeRead, RefundSent, SubscriptionCancelled, SubscriptionCreated,
};
pub use identity::Identity;
pub use ledger::{pda_pay, records_match, Record, Transfer};
pub use refund::refund_batch;
pub use settlement::{calculate_competition_bonus, send_bonus_to_winners, Settlement};
pub use state::{State, Status};
pub use subscription::{cancel_subscription, subscribe, validate_subscription};
pub use winners::set_winners_list;
