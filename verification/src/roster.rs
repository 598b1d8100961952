use vstd::prelude::*;
use crate::identity::Identity;

verus! {

/// Tells whether `who` is on the list.
pub fn contains(list: &Vec<Identity>, who: &Identity) -> (r: bool)
    ensures
        r == list@.contains(*who),
{
    position(list, who).is_some()
}

/// Where `who` first stands on the list, if anywhere.
pub fn position(list: &Vec<Identity>, who: &Identity) -> (r: Option<usize>)
    ensures
        (match r {
            Some(i) => i < list@.len() && list@[i as int] == *who && forall|k: int|
                0 <= k < i ==> list@[k] != *who,
            None => !list@.contains(*who),
        }),
        r.is_some() == list@.contains(*who),
{
    let mut i: usize = 0;
    while i < list.len()
        invariant
            i <= list@.len(),
            forall|k: int| 0 <= k < i ==> list@[k] != *who,
        decreases list@.len() - i,
    {
        if list[i] == *who {
            return Some(i);
        }
        i += 1;
    }
    None
}

/// Taking the first occurrence of an identity off a list that holds it leaves the list as
/// it was before and after that place.
pub proof fn lemma_remove_value_at_first(list: Seq<Identity>, who: Identity, i: int)
    requires
        0 <= i < list.len(),
        list[i] == who,
        forall|k: int| 0 <= k < i ==> list[k] != who,
    ensures
        list.remove_value(who) == list.remove(i),
{
    list.index_of_first_ensures(who);
}

/// A list that does not hold an identity is what it is without that identity.
pub proof fn lemma_remove_value_absent(list: Seq<Identity>, who: Identity)
    requires
        !list.contains(who),
    ensures
        list.remove_value(who) == list,
{
    list.index_of_first_ensures(who);
}

/// Taking one place off a list without repeats leaves a list without repeats that is no
/// longer, and everything left on it was on it before.
pub proof fn lemma_remove_keeps_distinct(list: Seq<Identity>, i: int)
    requires
        0 <= i < list.len(),
        list.no_duplicates(),
    ensures
        list.remove(i).no_duplicates(),
        list.remove(i).len() == list.len() - 1,
        forall|x: Identity| list.remove(i).contains(x) ==> list.contains(x),
{
    list.remove_ensures(i);
    let out = list.remove(i);
    assert forall|a: int, b: int| 0 <= a < out.len() && 0 <= b < out.len() && a != b implies out[a]
        != out[b] by {
        let a0 = if a < i { a } else { a + 1 };
        let b0 = if b < i { b } else { b + 1 };
        assert(out[a] == list[a0]);
        assert(out[b] == list[b0]);
    }
    assert forall|x: Identity| out.contains(x) implies list.contains(x) by {
        let k = choose|k: int| 0 <= k < out.len() && out[k] == x;
        let k0 = if k < i { k } else { k + 1 };
        assert(list[k0] == x);
    }
}

/// Adding a new identity to a list without repeats leaves a list without repeats.
pub proof fn lemma_push_keeps_distinct(list: Seq<Identity>, who: Identity)
    requires
        list.no_duplicates(),
        !list.contains(who),
    ensures
        list.push(who).no_duplicates(),
{
    let out = list.push(who);
    assert forall|a: int, b: int| 0 <= a < out.len() && 0 <= b < out.len() && a != b implies out[a]
        != out[b] by {
        if a < list.len() {
            assert(list.contains(out[a]));
        }
        if b < list.len() {
            assert(list.contains(out[b]));
        }
    }
}

/// The test that keeps an identity on a list when the identities in `leaving` leave it.
pub open spec fn stays(leaving: Seq<Identity>) -> spec_fn(Identity) -> bool {
    |who: Identity| !leaving.contains(who)
}

/// The list without the identities in `leaving`, the others in their order.
pub fn without(list: &Vec<Identity>, leaving: &Vec<Identity>) -> (r: Vec<Identity>)
    ensures
        r@ == list@.filter(stays(leaving@)),
{
    let mut remaining: Vec<Identity> = Vec::new();
    let mut n: usize = 0;
    while n < list.len()
        invariant
            n <= list@.len(),
            remaining@ == list@.take(n as int).filter(stays(leaving@)),
        decreases list@.len() - n,
    {
        let who = list[n];
        proof {
            let front = list@.take(n as int);
            front.lemma_filter_push(who, stays(leaving@));
            assert(list@.take(n + 1) == front.push(who));
        }
        if !contains(leaving, &who) {
            remaining.push(who);
        }
        n += 1;
    }
    assert(list@.take(list@.len() as int) == list@);
    remaining
}

/// What is left of a list without repeats, when some identities leave it, is a list without
/// repeats that is no longer, and everything left on it was on it before.
pub proof fn lemma_filter_keeps_distinct(list: Seq<Identity>, keep: spec_fn(Identity) -> bool)
    requires
        list.no_duplicates(),
    ensures
        list.filter(keep).no_duplicates(),
        list.filter(keep).len() <= list.len(),
        forall|who: Identity| list.filter(keep).contains(who) ==> list.contains(who),
    decreases list.len(),
{
    reveal(Seq::filter);
    if list.len() > 0 {
        let front = list.drop_last();
        lemma_filter_keeps_distinct(front, keep);
        let kept = front.filter(keep);
        assert forall|who: Identity| list.filter(keep).contains(who) implies list.contains(who) by {
            let out = list.filter(keep);
            let k = choose|k: int| 0 <= k < out.len() && out[k] == who;
            if k < kept.len() {
                assert(kept[k] == who);
                assert(kept.contains(who));
                assert(front.contains(who));
                let m = choose|m: int| 0 <= m < front.len() && front[m] == who;
                assert(list[m] == who);
            } else {
                assert(list[list.len() - 1] == who);
            }
        }
        if keep(list.last()) {
            if kept.contains(list.last()) {
                assert(front.contains(list.last()));
                let m = choose|m: int| 0 <= m < front.len() && front[m] == list.last();
                assert(list[m] == list[list.len() - 1]);
            }
            lemma_push_keeps_distinct(kept, list.last());
        }
    }
}

} // verus!
