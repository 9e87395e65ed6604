//! The bitmap store: tracks which of `ORDER * WORD_BITS` IDs are in use.
//!
//! One summary word (`top_layer`) caches which detail words are completely
//! full; a fixed-size array of detail words (`bottom_layers`) is the
//! authoritative allocation state. Bit `j` of `bottom_layers[i]` is set
//! exactly when ID `i * WORD_BITS + j` is currently allocated.

use vstd::prelude::*;

verus! {

broadcast use vstd::array::group_array_axioms;

/// Decomposes an ID into its block index (`id / 64`) and its bit position
/// within the block (`id % 64`).
proof fn lemma_id_split(id: int)
    requires
        0 <= id,
    ensures
        id == 64 * (id / 64) + id % 64,
        0 <= id % 64 < 64,
        0 <= id / 64,
{
    vstd::arithmetic::div_mod::lemma_fundamental_div_mod(id, 64);
    vstd::arithmetic::div_mod::lemma_mod_bound(id, 64);
}

/// Clearing bit `b` of a word clears exactly that bit and leaves the word
/// short of all-ones.
proof fn lemma_clear_bit(w: u64, b: u64, j: u64)
    by (bit_vector)
    requires
        b < 64,
        j < 64,
    ensures
        ((w & !(1u64 << b)) >> j) & 1u64 == (if j == b {
            0u64
        } else {
            (w >> j) & 1u64
        }),
        (w & !(1u64 << b)) != 0xffff_ffff_ffff_ffffu64,
{
}

/// Setting bit `b` of a word sets exactly that bit.
proof fn lemma_set_bit(w: u64, b: u64, j: u64)
    by (bit_vector)
    requires
        b < 64,
        j < 64,
    ensures
        ((w | (1u64 << b)) >> j) & 1u64 == (if j == b {
            1u64
        } else {
            (w >> j) & 1u64
        }),
{
}

/// Complementing a word flips every bit, and a word short of all-ones has
/// a nonzero complement.
proof fn lemma_not_bit(w: u64, j: u64)
    by (bit_vector)
    requires
        j < 64,
    ensures
        ((!w) >> j) & 1u64 == (if (w >> j) & 1u64 == 1u64 {
            0u64
        } else {
            1u64
        }),
{
}

/// A word short of all-ones has a nonzero complement.
proof fn lemma_not_max_nonzero(w: u64)
    by (bit_vector)
    requires
        w != 0xffff_ffff_ffff_ffffu64,
    ensures
        !w != 0u64,
{
}

/// Every bit of the all-ones word is set.
proof fn lemma_full_word_bit(j: u64)
    by (bit_vector)
    requires
        j < 64,
    ensures
        (0xffff_ffff_ffff_ffffu64 >> j) & 1u64 == 1u64,
{
}

/// The internal state of the PID allocator, containing the layers of
/// available PIDs. Pure data plus scan/mark/clear logic, no synchronization.
#[derive(Debug)]
pub struct PidAllocatorInner<const ORDER: usize> {
    top_layer: u64,
    bottom_layers: [u64; ORDER],
}

impl<const ORDER: usize> PidAllocatorInner<ORDER> {
    /// Total number of IDs the store can hand out.
    pub open spec fn spec_capacity() -> int {
        ORDER as int * 64
    }

    /// Whether bit `b` of word `w` is set.
    pub open spec fn word_bit(w: u64, b: int) -> bool {
        (w >> (b as u64)) & 1u64 == 1u64
    }

    /// Whether ID `id` is currently marked allocated. IDs outside
    /// `[0, capacity)` are never allocated.
    pub closed spec fn is_allocated(self, id: int) -> bool {
        &&& 0 <= id < Self::spec_capacity()
        &&& Self::word_bit(self.bottom_layers[id / 64], id % 64)
    }

    /// No ID at all is allocated.
    pub open spec fn is_empty(self) -> bool {
        forall|id: int| !self.is_allocated(id)
    }

    /// Every ID in range is allocated: the pool is exhausted.
    pub open spec fn is_full(self) -> bool {
        forall|id: int| 0 <= id < Self::spec_capacity() ==> self.is_allocated(id)
    }

    /// How one successful allocation changes the store: the returned ID `n`
    /// is the lowest free ID, and exactly `n` changes state.
    pub open spec fn allocate_step(pre: Self, post: Self, n: usize) -> bool {
        &&& (n as int) < Self::spec_capacity()
        &&& !pre.is_allocated(n as int)
        &&& forall|id: int| 0 <= id < n as int ==> pre.is_allocated(id)
        &&& forall|id: int| post.is_allocated(id) <==> (pre.is_allocated(id) || id == n as int)
    }

    /// How one recycle changes the store: exactly `n`, which was allocated,
    /// becomes free.
    pub open spec fn recycle_step(pre: Self, post: Self, n: usize) -> bool {
        &&& pre.is_allocated(n as int)
        &&& forall|id: int| post.is_allocated(id) <==> (pre.is_allocated(id) && id != n as int)
    }

    /// Range safety: no ID outside `[0, capacity)` is ever allocated,
    /// whatever the state of the store.
    pub proof fn lemma_range_safety(self, id: int)
        ensures
            !(0 <= id < Self::spec_capacity()) ==> !self.is_allocated(id),
    {
    }

    /// Well-formedness: the summary word is a strict derived cache of the
    /// detail words — summary bit `i` is set exactly when detail word `i`
    /// is all ones. The summary word has one bit per detail word, so the
    /// store supports at most 64 detail words.
    pub closed spec fn wf(self) -> bool {
        &&& ORDER <= 64
        &&& forall|i: int|
            0 <= i < ORDER as int ==> (Self::word_bit(self.top_layer, i) <==> self.bottom_layers[i]
                == u64::MAX)
    }

    /// Creates an empty store: no ID allocated.
    pub fn new() -> (r: Self)
        requires
            ORDER <= 64,
        ensures
            r.wf(),
            r.is_empty(),
    {
        let r = Self { top_layer: 0, bottom_layers: [0u64; ORDER] };
        proof {
            assert(forall|j: u64| #[trigger] ((0u64 >> j) & 1u64) == 0u64) by (bit_vector);
            assert forall|id: int| !r.is_allocated(id) by {
                if 0 <= id < Self::spec_capacity() {
                    assert((0u64 >> ((id % 64) as u64)) & 1u64 == 0u64);
                }
            }
        }
        r
    }

    /// Checks whether a given PID is currently allocated. Out-of-range PIDs
    /// are reported as not allocated rather than rejected, so the query is
    /// total over the whole integer domain.
    pub fn contains(&self, number: usize) -> (r: bool)
        requires
            self.wf(),
        ensures
            r == self.is_allocated(number as int),
    {
        let layer_index = number / 64;
        let bit_index = number % 64;
        proof {
            lemma_id_split(number as int);
        }
        if layer_index < ORDER {
            (self.bottom_layers[layer_index] >> (bit_index as u64)) & 1u64 == 1u64
        } else {
            false
        }
    }

    /// Allocates a PID from the internal state: scans the detail words in
    /// index order, claims the lowest free slot of the first word that is
    /// not full, and returns its ID. Returns `None` exactly when every ID
    /// is allocated; pool exhaustion is an expected, recoverable outcome.
    /// This method should only be called with exclusive access to the state.
    pub fn allocate(&mut self) -> (r: Option<usize>)
        requires
            old(self).wf(),
        ensures
            final(self).wf(),
            match r {
                Some(n) => Self::allocate_step(*old(self), *final(self), n),
                None => *final(self) == *old(self) && old(self).is_full(),
            },
    {
        let mut index: usize = 0;
        while index < ORDER
            invariant
                old(self).wf(),
                *self == *old(self),
                index <= ORDER,
                forall|i: int| 0 <= i < index as int ==> self.bottom_layers[i] == u64::MAX,
            decreases ORDER - index,
        {
            let layer = self.bottom_layers[index];
            if layer != u64::MAX {
                let free_bit = (!layer).trailing_zeros() as usize;
                proof {
                    lemma_not_max_nonzero(layer);
                    vstd::std_specs::bits::axiom_u64_trailing_zeros(!layer);
                    lemma_not_bit(layer, free_bit as u64);
                }
                let w = layer | (1u64 << (free_bit as u64));
                self.bottom_layers[index] = w;
                if w == u64::MAX {
                    self.top_layer = self.top_layer | (1u64 << (index as u64));
                }
                let number = index * 64 + free_bit;
                proof {
                    let fb = free_bit as u64;
                    let n = number as int;
                    vstd::arithmetic::div_mod::lemma_fundamental_div_mod_converse_div(
                        n,
                        64,
                        index as int,
                        fb as int,
                    );
                    vstd::arithmetic::div_mod::lemma_fundamental_div_mod_converse_mod(
                        n,
                        64,
                        index as int,
                        fb as int,
                    );
                    // The claimed slot was free, and every lower ID is taken.
                    assert(!old(self).is_allocated(n));
                    assert forall|id: int| 0 <= id < n implies old(self).is_allocated(id) by {
                        lemma_id_split(id);
                        let q = id / 64;
                        let b = id % 64;
                        if q == index as int {
                            assert(((!layer) >> (b as u64)) & 1u64 == 0u64);
                            lemma_not_bit(layer, b as u64);
                        } else {
                            lemma_full_word_bit(b as u64);
                        }
                    }
                    // Exactly the claimed slot changed state.
                    assert forall|id: int|
                        self.is_allocated(id) <==> (old(self).is_allocated(id) || id
                            == n) by {
                        if 0 <= id < Self::spec_capacity() {
                            lemma_id_split(id);
                            let q = id / 64;
                            let b = id % 64;
                            if q == index as int {
                                lemma_set_bit(layer, fb, b as u64);
                            }
                        }
                    }
                    // The summary word still mirrors which words are full.
                    assert(self.bottom_layers@ == old(self).bottom_layers@.update(
                        index as int,
                        w,
                    ));
                    assert forall|i: int| 0 <= i < ORDER as int implies (Self::word_bit(
                        self.top_layer,
                        i,
                    ) <==> self.bottom_layers[i] == u64::MAX) by {
                        assert(Self::word_bit(old(self).top_layer, i) <==> old(
                            self,
                        ).bottom_layers[i] == u64::MAX);
                        lemma_set_bit(old(self).top_layer, index as u64, i as u64);
                    }
                }
                return Some(number);
            }
            index += 1;
        }
        proof {
            assert forall|id: int| 0 <= id < Self::spec_capacity() implies old(
                self,
            ).is_allocated(id) by {
                lemma_id_split(id);
                lemma_full_word_bit((id % 64) as u64);
            }
        }
        None
    }

    /// Recycles the given PID, making it available for allocation again.
    /// The caller must guarantee that `number` was returned by a successful
    /// allocation and has not been recycled since.
    pub fn recycle(&mut self, number: usize)
        requires
            old(self).wf(),
            old(self).is_allocated(number as int),
        ensures
            final(self).wf(),
            Self::recycle_step(*old(self), *final(self), number),
    {
        proof {
            lemma_id_split(number as int);
        }
        let layer_index = number / 64;
        let bit_index = (number % 64) as u64;
        let ghost w0 = self.bottom_layers[layer_index as int];
        let w = self.bottom_layers[layer_index] & !(1u64 << bit_index);
        self.bottom_layers[layer_index] = w;
        if w != u64::MAX {
            self.top_layer = self.top_layer & !(1u64 << (layer_index as u64));
        } else {
            // A word with a cleared bit is never all ones, so the summary
            // bit is in fact cleared on every recycle.
            proof {
                lemma_clear_bit(w0, bit_index, bit_index);
            }
        }
        proof {
            assert(self.bottom_layers@ == old(self).bottom_layers@.update(layer_index as int, w));
            assert(self.top_layer == old(self).top_layer & !(1u64 << (layer_index as u64)));
            assert forall|i: int| 0 <= i < ORDER as int implies (Self::word_bit(self.top_layer, i)
                <==> self.bottom_layers[i] == u64::MAX) by {
                lemma_clear_bit(old(self).top_layer, layer_index as u64, i as u64);
                assert(Self::word_bit(old(self).top_layer, i) <==> old(self).bottom_layers[i]
                    == u64::MAX);
                if i == layer_index as int {
                    lemma_clear_bit(w0, bit_index, bit_index);
                }
            }
            assert forall|id: int|
                self.is_allocated(id) <==> (old(self).is_allocated(id) && id
                    != number as int) by {
                if 0 <= id < Self::spec_capacity() {
                    lemma_id_split(id);
                    let q = id / 64;
                    let r = id % 64;
                    if q == layer_index as int {
                        lemma_clear_bit(w0, bit_index, r as u64);
                    }
                }
            }
        }
    }
}

} // verus!
