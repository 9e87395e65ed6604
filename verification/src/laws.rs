//! Pool-wide laws of the bitmap store, stated over runs of operations.
//!
//! A run is a sequence of store states together with the IDs that the
//! successive operations returned or recycled; each law quantifies over
//! every such run, so it holds of every interleaving a caller can produce
//! while it holds the lock for each individual operation.

use vstd::prelude::*;

use crate::allocator::PidAllocatorInner;

verus! {

/// `states` records the store before and after each operation of a run of
/// `ids.len()` successful allocations with no recycles in between:
/// the store steps from `states[k]` to `states[k + 1]` returning `ids[k]`.
pub open spec fn allocation_run<const ORDER: usize>(
    states: Seq<PidAllocatorInner<ORDER>>,
    ids: Seq<usize>,
) -> bool {
    &&& states.len() == ids.len() + 1
    &&& forall|k: int|
        0 <= k < ids.len() ==> PidAllocatorInner::<ORDER>::allocate_step(
            states[k],
            states[k + 1],
            ids[k],
        )
}

/// The recycling counterpart: a run of `ids.len()` recycles.
pub open spec fn recycle_run<const ORDER: usize>(
    states: Seq<PidAllocatorInner<ORDER>>,
    ids: Seq<usize>,
) -> bool {
    &&& states.len() == ids.len() + 1
    &&& forall|k: int|
        0 <= k < ids.len() ==> PidAllocatorInner::<ORDER>::recycle_step(
            states[k],
            states[k + 1],
            ids[k],
        )
}

/// Whether one of the first `m` elements of `ids` denotes the ID `id`.
pub open spec fn run_yields_before(ids: Seq<usize>, m: int, id: int) -> bool {
    exists|w: int| 0 <= w < m && ids[w] as int == id
}

/// Whether some element of `ids` denotes the ID `id`.
pub open spec fn run_yields(ids: Seq<usize>, id: int) -> bool {
    run_yields_before(ids, ids.len() as int, id)
}

/// Extending the prefix by one element extends exactly what it yields.
proof fn lemma_yields_split(ids: Seq<usize>, m: int, id: int)
    requires
        1 <= m,
    ensures
        run_yields_before(ids, m, id) <==> (run_yields_before(ids, m - 1, id) || ids[m
            - 1] as int == id),
{
    if run_yields_before(ids, m, id) {
        let w = choose|w: int| 0 <= w < m && ids[w] as int == id;
        if w < m - 1 {
            assert(run_yields_before(ids, m - 1, id));
        }
    }
    if run_yields_before(ids, m - 1, id) {
        let w = choose|w: int| 0 <= w < m - 1 && ids[w] as int == id;
        assert(0 <= w < m && ids[w] as int == id);
    }
    if ids[m - 1] as int == id {
        assert(0 <= m - 1 < m && ids[m - 1] as int == id);
    }
}

/// An ID that is allocated at some point of an allocation run stays
/// allocated for the rest of the run.
proof fn lemma_run_preserves<const ORDER: usize>(
    states: Seq<PidAllocatorInner<ORDER>>,
    ids: Seq<usize>,
    id: int,
    k: int,
    m: int,
)
    requires
        allocation_run(states, ids),
        0 <= k <= m < states.len(),
        states[k].is_allocated(id),
    ensures
        states[m].is_allocated(id),
    decreases m - k,
{
    if k < m {
        assert(PidAllocatorInner::<ORDER>::allocate_step(states[k], states[k + 1], ids[k]));
        lemma_run_preserves(states, ids, id, k + 1, m);
    }
}

/// Uniqueness: the IDs returned by a run of successful allocations with no
/// recycles in between are pairwise distinct.
pub proof fn lemma_uniqueness<const ORDER: usize>(
    states: Seq<PidAllocatorInner<ORDER>>,
    ids: Seq<usize>,
)
    requires
        allocation_run(states, ids),
    ensures
        forall|i: int, j: int| 0 <= i < j < ids.len() ==> ids[i] != ids[j],
{
    assert forall|i: int, j: int| 0 <= i < j < ids.len() implies ids[i] != ids[j] by {
        assert(PidAllocatorInner::<ORDER>::allocate_step(states[i], states[i + 1], ids[i]));
        assert(PidAllocatorInner::<ORDER>::allocate_step(states[j], states[j + 1], ids[j]));
        lemma_run_preserves(states, ids, ids[i] as int, i + 1, j);
    }
}

/// After `k` allocations from an empty store, exactly the IDs below `k` are
/// allocated.
proof fn lemma_run_from_empty<const ORDER: usize>(
    states: Seq<PidAllocatorInner<ORDER>>,
    ids: Seq<usize>,
    k: int,
)
    requires
        allocation_run(states, ids),
        states[0].is_empty(),
        0 <= k < states.len(),
    ensures
        forall|id: int| states[k].is_allocated(id) <==> 0 <= id < k,
    decreases k,
{
    if k > 0 {
        lemma_run_from_empty(states, ids, k - 1);
        assert(PidAllocatorInner::<ORDER>::allocate_step(states[k - 1], states[k], ids[k - 1]));
        let n = ids[k - 1] as int;
        if n > k - 1 {
            assert(states[k - 1].is_allocated(k - 1));
        }
    }
}

/// Sequential IDs: under the lowest-free-ID policy, the `k`-th allocation
/// of a run that starts from an empty store returns exactly the ID `k`.
pub proof fn lemma_sequential_ids<const ORDER: usize>(
    states: Seq<PidAllocatorInner<ORDER>>,
    ids: Seq<usize>,
    k: int,
)
    requires
        allocation_run(states, ids),
        states[0].is_empty(),
        0 <= k < ids.len(),
    ensures
        ids[k] as int == k,
{
    lemma_run_from_empty(states, ids, k);
    assert(PidAllocatorInner::<ORDER>::allocate_step(states[k], states[k + 1], ids[k]));
    let n = ids[k] as int;
    if n > k {
        assert(states[k].is_allocated(k));
    }
}

/// Exhaustion: a run of allocations from an empty store can be at most
/// `capacity` long; after exactly `capacity` successful allocations the
/// store is full, so the next attempt reports exhaustion, while after any
/// fewer it is not full, so the next attempt must succeed.
pub proof fn lemma_exhaustion<const ORDER: usize>(
    states: Seq<PidAllocatorInner<ORDER>>,
    ids: Seq<usize>,
)
    requires
        allocation_run(states, ids),
        states[0].is_empty(),
    ensures
        ids.len() <= PidAllocatorInner::<ORDER>::spec_capacity(),
        ids.len() == PidAllocatorInner::<ORDER>::spec_capacity() ==> states.last().is_full(),
        ids.len() < PidAllocatorInner::<ORDER>::spec_capacity() ==> !states.last().is_full(),
{
    let cap = PidAllocatorInner::<ORDER>::spec_capacity();
    lemma_run_from_empty(states, ids, states.len() - 1);
    if ids.len() > cap {
        lemma_run_from_empty(states, ids, cap);
        assert(PidAllocatorInner::<ORDER>::allocate_step(states[cap], states[cap + 1], ids[cap]));
        assert(states[cap].is_allocated(ids[cap] as int));
    }
    if ids.len() < cap {
        assert(!states.last().is_allocated(ids.len() as int));
    }
}

/// What a recycle run leaves allocated: exactly what was allocated at its
/// start and was not recycled along the way.
proof fn lemma_recycle_run_state<const ORDER: usize>(
    states: Seq<PidAllocatorInner<ORDER>>,
    ids: Seq<usize>,
    k: int,
)
    requires
        recycle_run(states, ids),
        0 <= k < states.len(),
    ensures
        forall|id: int|
            #[trigger] states[k].is_allocated(id) <==> (states[0].is_allocated(id)
                && !run_yields_before(ids, k, id)),
    decreases k,
{
    assert forall|id: int|
        #[trigger] states[k].is_allocated(id) <==> (states[0].is_allocated(id)
            && !run_yields_before(ids, k, id)) by {
        if k == 0 {
            assert(!run_yields_before(ids, 0, id));
        } else {
            assert(PidAllocatorInner::<ORDER>::recycle_step(states[k - 1], states[k], ids[k - 1]));
            lemma_recycle_run_state(states, ids, k - 1);
            lemma_yields_split(ids, k, id);
            assert(states[k - 1].is_allocated(id) <==> (states[0].is_allocated(id)
                && !run_yields_before(ids, k - 1, id)));
            assert(states[k].is_allocated(id) <==> (states[k - 1].is_allocated(id) && id != ids[k
                - 1] as int));
        }
    }
}

/// Recycle correctness: an ID is allocated just before it is recycled and
/// free immediately after, and no other ID changes state.
pub proof fn lemma_recycle_correctness<const ORDER: usize>(
    pre: PidAllocatorInner<ORDER>,
    post: PidAllocatorInner<ORDER>,
    n: usize,
)
    requires
        PidAllocatorInner::<ORDER>::recycle_step(pre, post, n),
    ensures
        pre.is_allocated(n as int),
        !post.is_allocated(n as int),
        forall|id: int| id != n as int ==> (post.is_allocated(id) <==> pre.is_allocated(id)),
{
}

/// Full-cycle idempotence: recycling every allocated ID, in any order,
/// leaves the store empty, and a following run of allocations behaves as a
/// run from a fresh store: at most `capacity` of them succeed, they return
/// the IDs `0, 1, 2, ...` in increasing order — so pairwise distinct — and
/// the pool is exhausted exactly when all `capacity` IDs are out again.
pub proof fn lemma_full_cycle<const ORDER: usize>(
    rstates: Seq<PidAllocatorInner<ORDER>>,
    rids: Seq<usize>,
    astates: Seq<PidAllocatorInner<ORDER>>,
    aids: Seq<usize>,
)
    requires
        recycle_run(rstates, rids),
        forall|id: int| rstates[0].is_allocated(id) ==> run_yields(rids, id),
        allocation_run(astates, aids),
        astates[0] == rstates.last(),
    ensures
        rstates.last().is_empty(),
        aids.len() <= PidAllocatorInner::<ORDER>::spec_capacity(),
        forall|k: int| 0 <= k < aids.len() ==> aids[k] as int == k,
        forall|i: int, j: int| 0 <= i < j < aids.len() ==> aids[i] != aids[j],
        aids.len() == PidAllocatorInner::<ORDER>::spec_capacity() ==> astates.last().is_full(),
        aids.len() < PidAllocatorInner::<ORDER>::spec_capacity() ==> !astates.last().is_full(),
{
    let m: int = rstates.len() - 1;
    assert(rstates.last() == rstates[m]);
    assert forall|id: int| !rstates.last().is_allocated(id) by {
        lemma_recycle_run_state(rstates, rids, m);
        assert(rstates[m].is_allocated(id) <==> (rstates[0].is_allocated(id) && !run_yields_before(
            rids,
            m,
            id,
        )));
        if rstates[0].is_allocated(id) {
            assert(run_yields(rids, id));
            assert(run_yields_before(rids, m, id) == run_yields(rids, id));
        }
    }
    assert(rstates.last().is_empty());
    assert forall|k: int| 0 <= k < aids.len() implies aids[k] as int == k by {
        lemma_sequential_ids(astates, aids, k);
    }
    lemma_uniqueness(astates, aids);
    lemma_exhaustion(astates, aids);
}

} // verus!

