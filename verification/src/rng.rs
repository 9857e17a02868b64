use rand::rngs::StdRng;
use rand::seq::SliceRandom;
use rand::{RngCore, SeedableRng};
use vstd::prelude::*;

verus! {

/// rand's standard generator, carried opaquely through the run state.
#[verifier::external_type_specification]
#[verifier::external_body]
pub struct ExStdRng(StdRng);

/// Calls `StdRng::seed_from_u64`; nothing is claimed of the generator state it builds.
#[verifier::external_body]
fn std_rng_from_seed(seed: u64) -> (rng: StdRng) {
    StdRng::seed_from_u64(seed)
}

/// Calls `RngCore::next_u64` on the generator; any `u64` may come back.
#[verifier::external_body]
fn std_rng_next_u64(rng: &mut StdRng) -> (value: u64) {
    rng.next_u64()
}

/// Calls `SliceRandom::shuffle` (Fisher-Yates swaps) on the vector's slice. The only
/// claim is that the result is a permutation of the input; which one depends on the
/// generator state.
#[verifier::external_body]
fn std_rng_shuffle<T>(items: &mut Vec<T>, rng: &mut StdRng)
    ensures
        final(items)@.to_multiset() == old(items)@.to_multiset(),
        final(items)@.len() == old(items)@.len(),
{
    items.as_mut_slice().shuffle(rng);
}

/// `order` lists each position of `0..n` once: it says which item goes where.
pub open spec fn is_order_of(order: Seq<usize>, n: nat) -> bool {
    &&& order.len() == n
    &&& order.no_duplicates()
    &&& forall|k: int| 0 <= k < order.len() ==> #[trigger] order[k] < n
}

/// The items put in `order`: item `order[k]` goes to place `k`.
pub open spec fn reorder<T>(items: Seq<T>, order: Seq<usize>) -> Seq<T> {
    Seq::new(order.len(), |k: int| items[order[k] as int])
}

/// Putting items in an order of their positions keeps the items: the same multiset.
pub proof fn law_reorder_keeps_items<T>(items: Seq<T>, order: Seq<usize>)
    requires
        is_order_of(order, items.len()),
    ensures
        reorder(items, order).to_multiset() == items.to_multiset(),
    decreases order.len(),
{
    broadcast use vstd::seq_lib::group_to_multiset_ensures;

    if order.len() > 0 {
        let n = items.len();
        let last = order.last();
        let rest = order.drop_last();
        // `items` without the item at `last`, and `rest` renumbered to match.
        let smaller = items.remove(last as int);
        let renum = Seq::new(rest.len(), |k: int| if rest[k] < last { rest[k] } else { (rest[k] - 1) as usize });
        assert forall|k: int| 0 <= k < rest.len() implies rest[k] != last by {
            assert(order[k] != order[order.len() - 1]);
        }
        assert(renum.no_duplicates()) by {
            assert forall|a: int, b: int| 0 <= a < renum.len() && 0 <= b < renum.len() && a != b implies renum[a]
                != renum[b] by {
                assert(order[a] != order[b]);
                assert(order[a] != last && order[b] != last);
            }
        }
        assert forall|k: int| 0 <= k < renum.len() implies #[trigger] renum[k] < smaller.len() by {
            assert(order[k] < n);
            assert(order[k] != last);
        }
        law_reorder_keeps_items(smaller, renum);
        assert(reorder(smaller, renum) =~= reorder(items, rest)) by {
            assert forall|k: int| 0 <= k < rest.len() implies reorder(smaller, renum)[k] == reorder(items, rest)[k] by {
                assert(order[k] != last);
            }
        }
        assert(reorder(items, order) =~= reorder(items, rest).push(items[last as int]));
        vstd::seq_lib::to_multiset_build(reorder(items, rest), items[last as int]);
        vstd::seq_lib::to_multiset_remove(items, last as int);
        assert(items.to_multiset() =~= smaller.to_multiset().insert(items[last as int]));
    }
}

/// Seeded random number state of a run, with the order its latest shuffle chose.
#[derive(Debug)]
pub struct RngState {
    seed: u64,
    rng: StdRng,
    last_order: Vec<usize>,
}

impl RngState {
    pub closed spec fn spec_seed(&self) -> u64 {
        self.seed
    }

    /// The order the latest shuffle put its items in (empty before any shuffle).
    pub closed spec fn spec_last_order(&self) -> Seq<usize> {
        self.last_order@
    }

    pub fn from_seed(seed: u64) -> (state: Self)
        ensures
            state.spec_seed() == seed,
    {
        RngState { seed, rng: std_rng_from_seed(seed), last_order: Vec::new() }
    }

    /// The seed this state was created from.
    pub fn seed(&self) -> (seed: u64)
        ensures
            seed == self.spec_seed(),
    {
        self.seed
    }

    /// Next raw 64-bit value of the generator; the seed is kept. Which value comes back
    /// depends on the generator's state, which rand documents as deterministic but not
    /// reproducible, so nothing is stated of it.
    pub fn next_u64(&mut self) -> (value: u64)
        ensures
            final(self).spec_seed() == old(self).spec_seed(),
    {
        std_rng_next_u64(&mut self.rng)
    }

    /// Random permutation of `items`; the seed is kept. The generator draws an order of
    /// the positions (the swaps of a Fisher-Yates shuffle, which depend only on the number
    /// of items), the items are put in that order, and the state records it. Which order
    /// comes out depends on the generator's state, so only that it is one is stated.
    pub fn shuffle<T>(&mut self, items: &mut Vec<T>)
        ensures
            final(items)@.to_multiset() == old(items)@.to_multiset(),
            final(items)@.len() == old(items)@.len(),
            final(self).spec_seed() == old(self).spec_seed(),
            is_order_of(final(self).spec_last_order(), old(items)@.len()),
            final(items)@ == reorder(old(items)@, final(self).spec_last_order()),
    {
        let ghost orig = items@;
        let n = items.len();
        let mut order: Vec<usize> = Vec::new();
        let mut i: usize = 0;
        while i < n
            invariant
                i <= n,
                order@ == Seq::new(i as nat, |k: int| k as usize),
            decreases n - i,
        {
            order.push(i);
            i = i + 1;
            assert(order@ =~= Seq::new(i as nat, |k: int| k as usize));
        }
        let ghost ident = order@;
        proof {
            assert(ident.no_duplicates());
            ident.lemma_multiset_has_no_duplicates();
        }
        std_rng_shuffle(&mut order, &mut self.rng);
        proof {
            broadcast use vstd::seq_lib::group_to_multiset_ensures;

            order@.lemma_multiset_has_no_duplicates_conv();
            assert forall|k: int| 0 <= k < order@.len() implies #[trigger] order@[k] < n by {
                assert(order@.to_multiset().count(order@[k]) > 0);
                assert(ident.contains(order@[k]));
            }
        }
        // Take the items out, last first, so that `slots[n - 1 - j]` holds item `j`.
        let mut slots: Vec<Option<T>> = Vec::new();
        while items.len() > 0
            invariant
                n == orig.len(),
                items@.len() + slots@.len() == n,
                items@ == orig.subrange(0, items@.len() as int),
                forall|j: int| 0 <= j < slots@.len() ==> #[trigger] slots@[j] == Some(orig[n - 1 - j]),
            decreases items.len(),
        {
            let x = items.pop().unwrap();
            proof {
                assert(x == orig[items@.len() as int]);
                assert(items@ =~= orig.subrange(0, items@.len() as int));
            }
            slots.push(Some(x));
        }
        let mut k: usize = 0;
        while k < n
            invariant
                k <= n,
                slots@.len() == n,
                is_order_of(order@, n as nat),
                items@ == reorder(orig, order@.subrange(0, k as int)),
                forall|j: int|
                    0 <= j < n ==> (#[trigger] slots@[n - 1 - j] == if order@.subrange(0, k as int).contains(j as usize) {
                        None
                    } else {
                        Some(orig[j])
                    }),
            decreases n - k,
        {
            let o = order[k];
            let slot = n - 1 - o;
            proof {
                assert forall|t: int| 0 <= t < k implies order@.subrange(0, k as int)[t] != o by {
                    assert(order@[t] != order@[k as int]);
                }
                assert(slots@[n - 1 - o] == Some(orig[o as int]));
            }
            let taken = slots[slot].take();
            match taken {
                Some(x) => {
                    items.push(x);
                },
                None => {},
            }
            proof {
                let before = order@.subrange(0, k as int);
                let after = order@.subrange(0, k + 1);
                assert(after =~= before.push(o));
                assert(items@ =~= reorder(orig, after));
                assert forall|j: int| 0 <= j < n implies (#[trigger] slots@[n - 1 - j] == if after.contains(j as usize) {
                    None
                } else {
                    Some(orig[j])
                }) by {
                    if j == o {
                        assert(after[k as int] == o);
                    } else {
                        assert(after.contains(j as usize) <==> before.contains(j as usize)) by {
                            if after.contains(j as usize) {
                                let t = choose|t: int| 0 <= t < after.len() && after[t] == j as usize;
                                assert(before[t] == after[t]);
                            }
                            if before.contains(j as usize) {
                                let t = choose|t: int| 0 <= t < before.len() && before[t] == j as usize;
                                assert(after[t] == before[t]);
                            }
                        }
                    }
                }
            }
            k = k + 1;
        }
        proof {
            assert(order@.subrange(0, n as int) =~= order@);
            law_reorder_keeps_items(orig, order@);
        }
        self.last_order = order;
    }
}

} // verus!
