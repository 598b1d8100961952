use vstd::prelude::*;
use crate::identity::Identity;

verus! {

/// Where a challenge stands in its life.
#[derive(Clone, Copy, Debug, PartialEq, Eq, Structural, Hash)]
pub enum Status {
    Pending,
    InProgress,
    Closed,
    Canceled,
}

impl Status {
    /// The number under which callers and stored records know this status.
    pub open spec fn spec_code(self) -> u8 {
        match self {
            Status::Pending => 0,
            Status::InProgress => 1,
            Status::Closed => 2,
            Status::Canceled => 3,
        }
    }

    /// The status that a number stands for, if it stands for one.
    pub open spec fn spec_from_code(code: u8) -> Option<Status> {
        if code == 0 {
            Some(Status::Pending)
        } else if code == 1 {
            Some(Status::InProgress)
        } else if code == 2 {
            Some(Status::Closed)
        } else if code == 3 {
            Some(Status::Canceled)
        } else {
            None
        }
    }

    /// Whether `set_status` may move a challenge to `target`: anywhere while the challenge
    /// is unpaid, and only to `Closed` once it is paid.
    pub open spec fn spec_may_become(paid: bool, target: Status) -> bool {
        paid ==> target == Status::Closed
    }

    /// The number under which callers and stored records know this status.
    #[verifier::when_used_as_spec(spec_code)]
    pub fn code(self) -> (code: u8)
        ensures
            code == self.spec_code(),
    {
        match self {
            Status::Pending => 0,
            Status::InProgress => 1,
            Status::Closed => 2,
            Status::Canceled => 3,
        }
    }

    /// The status that a number stands for, if it stands for one.
    #[verifier::when_used_as_spec(spec_from_code)]
    pub fn from_code(code: u8) -> (status: Option<Status>)
        ensures
            status == Status::spec_from_code(code),
    {
        match code {
            0 => Some(Status::Pending),
            1 => Some(Status::InProgress),
            2 => Some(Status::Closed),
            3 => Some(Status::Canceled),
            _ => None,
        }
    }

    /// Tells whether `set_status` may move a challenge to `target`.
    #[verifier::when_used_as_spec(spec_may_become)]
    pub fn may_become(paid: bool, target: Status) -> (allowed: bool)
        ensures
            allowed == Status::spec_may_become(paid, target),
    {
        !paid || target == Status::Closed
    }

    /// A status and its number determine each other, and the numbers are 0 to 3.
    pub proof fn lemma_code_round_trip(status: Status, code: u8)
        ensures
            Status::spec_from_code(status.spec_code()) == Some(status),
            Status::spec_from_code(code) is Some <==> code <= 3,
            Status::spec_from_code(code) matches Some(s) ==> s.spec_code() == code,
    {
    }
}

/// One contest: its terms, its administrators, its participants and its declared winners.
#[derive(Clone, Debug, PartialEq, Eq)]
pub struct State {
    pub version: u8,
    pub bump: u8,
    pub challenge_id: u64,
    pub fee: u64,
    pub commission: u8,
    pub status: Status,
    pub owner: Identity,
    pub treasury: Identity,
    pub paid: bool,
    pub op_counter: u64,
    pub owners: Vec<Identity>,
    pub subscribers: Vec<Identity>,
    pub winners_list: Vec<Identity>,
}

/// A challenge as a mathematical value: what a `State` holds, with its lists as sequences.
pub struct Challenge {
    pub version: u8,
    pub bump: u8,
    pub challenge_id: u64,
    pub fee: u64,
    pub commission: u8,
    pub status: Status,
    pub owner: Identity,
    pub treasury: Identity,
    pub paid: bool,
    pub op_counter: u64,
    pub owners: Seq<Identity>,
    pub subscribers: Seq<Identity>,
    pub winners_list: Seq<Identity>,
}

impl View for State {
    type V = Challenge;

    open spec fn view(&self) -> Challenge {
        Challenge {
            version: self.version,
            bump: self.bump,
            challenge_id: self.challenge_id,
            fee: self.fee,
            commission: self.commission,
            status: self.status,
            owner: self.owner,
            treasury: self.treasury,
            paid: self.paid,
            op_counter: self.op_counter,
            owners: self.owners@,
            subscribers: self.subscribers@,
            winners_list: self.winners_list@,
        }
    }
}

/// `counter` advanced by `by`, stopping at the largest value a counter can hold.
pub open spec fn saturating_count(counter: u64, by: nat) -> u64 {
    if counter + by > u64::MAX {
        u64::MAX
    } else {
        (counter + by) as u64
    }
}

impl Challenge {
    /// What must hold of a challenge after every call: the rate is a percentage, the fee is
    /// positive, the treasury is somebody, there is an administrator, the three lists respect
    /// their limits and hold no identity twice, no winner is the default identity, and a paid
    /// challenge is closed.
    pub open spec fn well_formed(self) -> bool {
        &&& self.commission <= 100
        &&& self.fee > 0
        &&& !self.treasury.is_default()
        &&& 1 <= self.owners.len() <= State::MAX_OWNERS
        &&& self.owners.no_duplicates()
        &&& self.subscribers.len() <= State::MAX_SUBSCRIBERS
        &&& self.subscribers.no_duplicates()
        &&& self.winners_list.len() <= State::MAX_WINNERS
        &&& self.winners_list.no_duplicates()
        &&& forall|i: int| 0 <= i < self.winners_list.len() ==> !(#[trigger] self.winners_list[i]).is_default()
        &&& self.paid ==> self.status == Status::Closed
    }

    /// Whether the challenge has been settled: it is paid and closed, and stays so.
    pub open spec fn is_terminal(self) -> bool {
        self.paid && self.status == Status::Closed
    }

    /// The challenge with its operation counter advanced by `by`.
    pub open spec fn counted(self, by: nat) -> Challenge {
        Challenge { op_counter: saturating_count(self.op_counter, by), ..self }
    }

    /// Whether this challenge was written with another schema version than the current one.
    pub open spec fn needs_migration(self) -> bool {
        self.version != State::CURRENT_VERSION
    }
}

impl State {
    /// The schema version that new challenges are written with.
    pub const CURRENT_VERSION: u8 = 1;

    /// The most participants a challenge admits.
    pub const MAX_SUBSCRIBERS: usize = 100;

    /// The most winners a challenge can declare.
    pub const MAX_WINNERS: usize = 10;

    /// The most administrators a challenge can list.
    pub const MAX_OWNERS: usize = 5;

    /// The bytes that a stored challenge takes at its largest: an 8-byte tag, the scalar
    /// fields, two 32-byte identities, and three lists of 32-byte identities, each behind a
    /// 4-byte length.
    pub const MAX_SIZE: usize = 8 + 1 + 1 + 8 + 8 + 1 + 1 + 32 + 32 + 1 + 8 + (4 + 5 * 32) + (4
        + 100 * 32) + (4 + 10 * 32);

    /// Tells whether this challenge was written with another schema version than the
    /// current one.
    pub fn needs_migration(&self) -> (r: bool)
        ensures
            r == self@.needs_migration(),
    {
        self.version != State::CURRENT_VERSION
    }
}

} // verus!
