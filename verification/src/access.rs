use vstd::prelude::*;
use crate::errors::ErrorCode;
use crate::identity::Identity;
use crate::roster::contains;
use crate::state::{Challenge, State};

verus! {

impl Challenge {
    /// Whether `caller` is the primary owner of this challenge.
    pub open spec fn is_primary_owner(self, caller: Identity) -> bool {
        caller == self.owner
    }

    /// Whether `caller` may act for this challenge: the primary owner, or one of the listed
    /// administrators.
    pub open spec fn is_allowed_user(self, caller: Identity) -> bool {
        caller == self.owner || self.owners.contains(caller)
    }

    /// What there is to object to `signer` acting for this challenge, if anything.
    pub open spec fn user_objection(self, signer: Identity) -> Option<ErrorCode> {
        if self.is_allowed_user(signer) {
            None
        } else {
            Some(ErrorCode::Unauthorized)
        }
    }
}

/// What there is to object to `signer` acting as the owner, if anything.
pub open spec fn owner_objection(signer: Identity, expected_owner: Identity) -> Option<ErrorCode> {
    if signer == expected_owner {
        None
    } else {
        Some(ErrorCode::Unauthorized)
    }
}

/// What a guard returns: nothing where there is no objection, and the objection as an error
/// where there is one.
pub open spec fn refusal(objection: Option<ErrorCode>) -> Result<(), ErrorCode> {
    match objection {
        Some(e) => Err(e),
        None => Ok(()),
    }
}

impl ErrorCode {
    /// Passes the signer that is the expected owner, and refuses every other.
    pub fn validate_primary_owner(signer: &Identity, expected_owner: &Identity) -> (r: Result<
        (),
        ErrorCode,
    >)
        ensures
            r == refusal(owner_objection(*signer, *expected_owner)),
    {
        if *signer == *expected_owner {
            Ok(())
        } else {
            Err(ErrorCode::Unauthorized)
        }
    }

    /// Passes the signer that may act for the challenge, and refuses every other.
    pub fn validate_allowed_user(signer: &Identity, state: &State) -> (r: Result<(), ErrorCode>)
        ensures
            r == refusal(state@.user_objection(*signer)),
    {
        let is_owner = *signer == state.owner;
        let is_multi_owner = contains(&state.owners, signer);
        if is_owner || is_multi_owner {
            Ok(())
        } else {
            Err(ErrorCode::Unauthorized)
        }
    }
}

/// Passes the signer that is the expected owner, and refuses every other.
pub fn validate_primary_owner(signer: &Identity, expected_owner: &Identity) -> (r: Result<
    (),
    ErrorCode,
>)
    ensures
        r == refusal(owner_objection(*signer, *expected_owner)),
{
    ErrorCode::validate_primary_owner(signer, expected_owner)
}

/// Passes the signer that may act for the challenge, and refuses every other.
pub fn validate_allowed_user(signer: &Identity, state: &State) -> (r: Result<(), ErrorCode>)
    ensures
        r == refusal(state@.user_objection(*signer)),
{
    ErrorCode::validate_allowed_user(signer, state)
}

} // verus!
