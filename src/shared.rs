//! State shared by every open of the device: how many times it was opened.
use vstd::multiset::Multiset;
use vstd::prelude::*;

verus! {

/// The open counter of one driver instance.
///
/// It is changed only through `increment_and_get`, which takes it exclusively: callers
/// on several threads hold it behind a lock, so the increments are totally ordered.
#[derive(Debug, PartialEq, Eq)]
pub struct SharedState {
    open_count: u64,
}

/// One increment of the counter: from `pre` to `post`, handing back `r`.
pub open spec fn increment_step(pre: SharedState, post: SharedState, r: u64) -> bool {
    post.count() == pre.count() + 1 && r == post.count()
}

impl SharedState {
    /// The number of opens so far.
    pub closed spec fn count(self) -> nat {
        self.open_count as nat
    }

    /// A counter that has seen no open.
    pub fn new() -> (r: Self)
        ensures
            r.count() == 0,
    {
        SharedState { open_count: 0 }
    }

    pub fn open_count(&self) -> (r: u64)
        ensures
            r == self.count(),
    {
        self.open_count
    }

    /// Adds one to the counter and returns the new value.
    pub fn increment_and_get(&mut self) -> (r: u64)
        requires
            old(self).count() < u64::MAX,
        ensures
            increment_step(*old(self), *final(self), r),
    {
        self.open_count = self.open_count + 1;
        self.open_count
    }
}

/// The set `{1, ..., n}` as a multiset.
pub open spec fn first_counts(n: nat) -> Multiset<u64>
    decreases n,
{
    if n == 0 {
        Multiset::empty()
    } else {
        first_counts((n - 1) as nat).insert(n as u64)
    }
}

/// Whatever order the opens are serialised in, `n` increments of a fresh counter hand
/// out each of `1, ..., n` exactly once: the values returned are pairwise distinct
/// and, as a multiset, equal to `{1, ..., n}`.
///
/// `states[i]` is the counter before the `i`-th increment and `states[i + 1]` after
/// it; `results[i]` is what that increment returned.
pub proof fn lemma_counts_are_one_to_n(states: Seq<SharedState>, results: Seq<u64>)
    requires
        states.len() == results.len() + 1,
        states[0].count() == 0,
        forall|i: int|
            0 <= i < results.len() ==> #[trigger] increment_step(states[i], states[i + 1], results[i]),
    ensures
        forall|i: int| 0 <= i < states.len() ==> #[trigger] states[i].count() == i,
        forall|i: int| 0 <= i < results.len() ==> #[trigger] results[i] == i + 1,
        forall|i: int, j: int|
            0 <= i < results.len() && 0 <= j < results.len() && i != j ==> results[i] != results[j],
        results.to_multiset() == first_counts(results.len()),
    decreases results.len(),
{
    let n = results.len() as int;
    if n > 0 {
        let states0 = states.drop_last();
        let results0 = results.drop_last();
        assert forall|i: int| 0 <= i < results0.len() implies #[trigger] increment_step(states0[i], states0[i + 1], results0[i]) by {
            assert(increment_step(states[i], states[i + 1], results[i]));
        }
        lemma_counts_are_one_to_n(states0, results0);
        assert(increment_step(states[n - 1], states[n], results[n - 1]));
        assert(states0[n - 1] == states[n - 1]);
        assert forall|i: int| 0 <= i <= n implies #[trigger] states[i].count() == i by {
            if i < n {
                assert(states0[i] == states[i]);
            }
        }
        assert forall|i: int| 0 <= i < n implies #[trigger] results[i] == i + 1 by {
            assert(increment_step(states[i], states[i + 1], results[i]));
        }
        assert(results =~= results0.push(results[n - 1]));
        results0.to_multiset_ensures();
        assert(results.to_multiset() == results0.to_multiset().insert(results[n - 1]));
    } else {
        assert(results.to_multiset() =~= Multiset::empty()) by {
            results.to_multiset_ensures();
        }
    }
}

} // verus!
