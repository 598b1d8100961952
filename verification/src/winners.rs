use vstd::prelude::*;
use crate::access::validate_primary_owner;
use crate::calls::Call;
use crate::errors::ErrorCode;
use crate::identity::Identity;
use crate::roster::contains;
use crate::state::{Challenge, State, Status};

verus! {

/// Why the `i`-th identity of a batch cannot be declared a winner after those before it,
/// if it cannot: it is the default identity; or it is declared already, on the list or
/// earlier in the batch; or the list is full.
pub open spec fn winner_error(list: Seq<Identity>, batch: Seq<Identity>, i: int) -> Option<ErrorCode> {
    if batch[i].is_default() {
        Some(ErrorCode::InvalidWinnerAddress)
    } else if (list + batch.take(i)).contains(batch[i]) {
        Some(ErrorCode::InvalidInput)
    } else if list.len() + i >= State::MAX_WINNERS {
        Some(ErrorCode::TooManyWinners)
    } else {
        None
    }
}

/// Whether the `i`-th identity of a batch is the first that cannot be declared a winner.
pub open spec fn is_first_refused(list: Seq<Identity>, batch: Seq<Identity>, i: int) -> bool {
    &&& 0 <= i < batch.len()
    &&& winner_error(list, batch, i) is Some
    &&& forall|k: int| 0 <= k < i ==> winner_error(list, batch, k) is None
}

/// Why a batch cannot be declared, if it cannot: the error of the first identity in it that
/// cannot be.
pub open spec fn batch_error(list: Seq<Identity>, batch: Seq<Identity>) -> Option<ErrorCode> {
    if exists|i: int| is_first_refused(list, batch, i) {
        winner_error(list, batch, choose|i: int| is_first_refused(list, batch, i))
    } else {
        None
    }
}

/// A batch has at most one first refused identity, so its error is that identity's.
pub proof fn lemma_first_refused_names_the_error(list: Seq<Identity>, batch: Seq<Identity>, i: int)
    requires
        is_first_refused(list, batch, i),
    ensures
        batch_error(list, batch) == winner_error(list, batch, i),
{
    let c = choose|c: int| is_first_refused(list, batch, c);
    if c < i {
        assert(winner_error(list, batch, c) is None);
    }
    if i < c {
        assert(winner_error(list, batch, i) is None);
    }
}

/// A batch has an error exactly if one of its identities cannot be declared.
pub proof fn lemma_batch_error_is_of_some_winner(list: Seq<Identity>, batch: Seq<Identity>)
    ensures
        batch_error(list, batch) is None <==> forall|k: int|
            0 <= k < batch.len() ==> winner_error(list, batch, k) is None,
{
    if batch_error(list, batch) is None {
        assert forall|k: int| 0 <= k < batch.len() implies winner_error(list, batch, k) is None by {
            if winner_error(list, batch, k) is Some {
                lemma_some_is_first_refused(list, batch, k);
            }
        }
    } else {
        let c = choose|c: int| is_first_refused(list, batch, c);
        assert(winner_error(list, batch, c) is Some);
    }
}

/// Where some identity of a batch cannot be declared, there is a first such.
proof fn lemma_some_is_first_refused(list: Seq<Identity>, batch: Seq<Identity>, k: int)
    requires
        0 <= k < batch.len(),
        winner_error(list, batch, k) is Some,
    ensures
        batch_error(list, batch) is Some,
    decreases k,
{
    if forall|j: int| 0 <= j < k ==> winner_error(list, batch, j) is None {
        lemma_first_refused_names_the_error(list, batch, k);
    } else {
        let j = choose|j: int| 0 <= j < k && winner_error(list, batch, j) is Some;
        lemma_some_is_first_refused(list, batch, j);
    }
}

/// A batch of which every identity can be declared extends a proper list of winners to a
/// proper list of winners: no longer than the limit, without repeats, without the default
/// identity.
pub proof fn lemma_declared_is_well_formed(list: Seq<Identity>, batch: Seq<Identity>)
    requires
        list.len() <= State::MAX_WINNERS,
        list.no_duplicates(),
        forall|i: int| 0 <= i < list.len() ==> !(#[trigger] list[i]).is_default(),
        batch_error(list, batch) is None,
    ensures
        (list + batch).len() <= State::MAX_WINNERS,
        (list + batch).no_duplicates(),
        forall|i: int| 0 <= i < (list + batch).len() ==> !(#[trigger] (list + batch)[i]).is_default(),
{
    let after = list + batch;
    lemma_batch_error_is_of_some_winner(list, batch);
    if batch.len() > 0 {
        assert(winner_error(list, batch, batch.len() - 1) is None);
    }
    assert forall|i: int| 0 <= i < after.len() implies !(#[trigger] after[i]).is_default() by {
        if i >= list.len() {
            assert(winner_error(list, batch, i - list.len()) is None);
            assert(after[i] == batch[i - list.len()]);
        } else {
            assert(after[i] == list[i]);
        }
    }
    assert forall|a: int, b: int| 0 <= a < b < after.len() implies after[a] != after[b] by {
        if b >= list.len() {
            let m = b - list.len();
            assert(winner_error(list, batch, m) is None);
            let seen = list + batch.take(m);
            assert(seen[a] == after[a]);
            assert(seen.contains(after[a]));
        }
    }
}

impl Challenge {
    /// Why a declaration of winners is refused, if it is: the caller is not the primary
    /// owner, or the challenge is closed, or one of the batch cannot be declared.
    pub open spec fn declare_error(self, caller: Identity, winners: Seq<Identity>) -> Option<ErrorCode> {
        if !self.is_primary_owner(caller) {
            Some(ErrorCode::Unauthorized)
        } else if self.status == Status::Closed {
            Some(ErrorCode::InvalidStatus)
        } else {
            batch_error(self.winners_list, winners)
        }
    }

    /// The challenge with `winners` added, in their order, at the end of its winners, and
    /// its counter advanced by one and by one more for each of them.
    pub open spec fn declared(self, winners: Seq<Identity>) -> Challenge {
        Challenge { winners_list: self.winners_list + winners, ..self }.counted(1 + winners.len())
    }
}

/// Declares winners: adds each identity of the batch, in order, to the list of winners. One
/// identity that cannot be declared refuses the whole batch, and the challenge stays as it
/// was.
#[verifier::loop_isolation(false)]
pub fn set_winners_list(state: &mut State, caller: &Identity, winners: Vec<Identity>) -> (r: Result<
    (),
    ErrorCode,
>)
    ensures
        (match old(state)@.declare_error(*caller, winners@) {
            Some(e) => r == Err::<(), ErrorCode>(e) && final(state)@ == old(state)@,
            None => r == Ok::<(), ErrorCode>(()) && final(state)@ == old(state)@.declared(winners@),
        }),
        final(state)@ == (Call::SetWinnersList { caller: *caller, winners: winners@ }).outcome(old(state)@),
        old(state)@.paid ==> final(state)@.paid,
        old(state)@.well_formed() ==> final(state)@.well_formed(),
{
    let ghost before = state@;
    match validate_primary_owner(caller, &state.owner) {
        Err(e) => {
            return Err(e);
        },
        Ok(()) => {},
    }
    if state.status == Status::Closed {
        return Err(ErrorCode::InvalidStatus);
    }
    let mut list: Vec<Identity> = state.winners_list.clone();
    assert(list@ == before.winners_list);
    let mut i: usize = 0;
    while i < winners.len()
        invariant
            i <= winners@.len(),
            list@ == before.winners_list + winners@.take(i as int),
            forall|k: int| 0 <= k < i ==> winner_error(before.winners_list, winners@, k) is None,
        decreases winners@.len() - i,
    {
        let w = winners[i];
        if w.check_default() {
            proof {
                lemma_first_refused_names_the_error(before.winners_list, winners@, i as int);
            }
            return Err(ErrorCode::InvalidWinnerAddress);
        }
        if contains(&list, &w) {
            proof {
                lemma_first_refused_names_the_error(before.winners_list, winners@, i as int);
            }
            return Err(ErrorCode::InvalidInput);
        }
        if list.len() >= State::MAX_WINNERS {
            proof {
                lemma_first_refused_names_the_error(before.winners_list, winners@, i as int);
            }
            return Err(ErrorCode::TooManyWinners);
        }
        proof {
            assert(winners@.take(i + 1) == winners@.take(i as int).push(w));
        }
        list.push(w);
        i += 1;
    }
    proof {
        lemma_batch_error_is_of_some_winner(before.winners_list, winners@);
        assert(winners@.take(winners@.len() as int) == winners@);
        if before.well_formed() {
            lemma_declared_is_well_formed(before.winners_list, winners@);
        }
    }
    state.winners_list = list;
    state.op_counter = state.op_counter.saturating_add(1).saturating_add(winners.len() as u64);
    Ok(())
}

} // verus!
