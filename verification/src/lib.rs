//! A fixed-capacity, thread-safe process-identifier allocator.
//!
//! The allocator hands out unique small integers ("PIDs") from a bounded
//! pool and reclaims them automatically when the holder is done.

mod allocator;
mod laws;
mod handle;

pub use allocator::PidAllocatorInner;
pub use handle::Pid;
pub use handle::PidAllocator;
pub use laws::allocation_run;
pub use laws::lemma_exhaustion;
pub use laws::lemma_full_cycle;
pub use laws::lemma_recycle_correctness;
pub use laws::lemma_sequential_ids;
pub use laws::lemma_uniqueness;
pub use laws::recycle_run;
pub use laws::run_yields;
pub use laws::run_yields_before;
