//! The allocator handle and the scoped ID.
//!
//! `PidAllocator` is a shared, lock-protected facade over one bitmap store:
//! the unit that multiple threads hold references to. `Pid` is the value a
//! successful allocation produces; it exposes the allocated integer and
//! returns it to the store automatically when dropped.

use vstd::prelude::*;

use crate::allocator::PidAllocatorInner;
use spin::mutex::SpinMutex;
use std::sync::Arc;

verus! {

#[verifier::external_type_specification]
#[verifier::external_body]
#[verifier::reject_recursive_types(T)]
#[verifier::reject_recursive_types(R)]
pub struct ExSpinMutex<T: ?Sized, R>(SpinMutex<T, R>);

#[verifier::external_type_specification]
#[verifier::external_body]
pub struct ExSpin(spin::relax::Spin);

/// The protocol token for a shared store. It records that the mutex was
/// created by `new_store` over a well-formed bitmap store, and that the only
/// code that mutates what it guards is the lock wrappers below, each of
/// which calls one well-formedness-preserving operation under the lock — so
/// the store behind the mutex is well formed whenever the lock is taken.
///
/// The mutex value is opaque, so this cannot be defined over its contents;
/// its definition is trivially true, and its whole force is that, outside
/// this module, only `new_store`'s postcondition supplies it. The lock
/// wrappers demand it, which pins them, checked by Verus, to stores built
/// by `new_store`.
pub closed spec fn protected<const ORDER: usize>(
    store: SpinMutex<PidAllocatorInner<ORDER>>,
) -> bool {
    true
}

/// Relies on spin::mutex::SpinMutex::new: wraps the given store in a new,
/// unlocked mutex. The well-formed store handed in is the whole initial
/// contents, which makes the returned mutex a protected store.
#[verifier::external_body]
fn new_store<const ORDER: usize>(data: PidAllocatorInner<ORDER>) -> (r: SpinMutex<
    PidAllocatorInner<ORDER>,
>)
    requires
        data.wf(),
    ensures
        protected(r),
{
    SpinMutex::new(data)
}

/// Relies on std::sync::Arc::clone: the clone is a new reference to the
/// same shared store, not a copy of it.
#[verifier::external_body]
fn share_store<const ORDER: usize>(
    store: &Arc<SpinMutex<PidAllocatorInner<ORDER>>>,
) -> (r: Arc<SpinMutex<PidAllocatorInner<ORDER>>>)
    ensures
        r == *store,
{
    store.clone()
}

/// Relies on spin::mutex::SpinMutex::lock: the guard grants exclusive access
/// to the stored bitmap state until it is dropped at the end of the body, so
/// the scan-and-mark runs on a store no other thread is mutating. On a
/// protected store the state under the lock is well formed, so the bound
/// stated here is the postcondition of `PidAllocatorInner::allocate` on a
/// well-formed store, and — with `ORDER <= 64` — that call is panic-free.
/// Nothing is promised about which ID comes back, or whether one does:
/// other threads may fill or free the pool between calls.
#[verifier::external_body]
fn lock_allocate<const ORDER: usize>(
    store: &Arc<SpinMutex<PidAllocatorInner<ORDER>>>,
) -> (r: Option<usize>)
    requires
        ORDER <= 64,
        protected(**store),
    ensures
        r matches Some(n) ==> (n as int) < PidAllocatorInner::<ORDER>::spec_capacity(),
{
    store.lock().allocate()
}

/// Relies on spin::mutex::SpinMutex::lock, as `lock_allocate` does; clears
/// the bit for `number` under the lock by calling
/// `PidAllocatorInner::recycle`, whose body is panic-free when `ORDER <= 64`
/// and `number` lies below the capacity.
#[verifier::external_body]
fn lock_recycle<const ORDER: usize>(
    store: &Arc<SpinMutex<PidAllocatorInner<ORDER>>>,
    number: usize,
)
    requires
        ORDER <= 64,
        (number as int) < PidAllocatorInner::<ORDER>::spec_capacity(),
        protected(**store),
    opens_invariants none
    no_unwind
{
    store.lock().recycle(number);
}

/// Relies on spin::mutex::SpinMutex::lock, as `lock_allocate` does; queries
/// `PidAllocatorInner::contains` under the lock. That body is total — the
/// block index is bounds-checked and the shift stays below the word width —
/// and reports every ID at or above `ORDER * 64` as not allocated, whatever
/// the state of the store. The result for an in-range ID may be stale the
/// instant the lock is released.
#[verifier::external_body]
fn lock_contains<const ORDER: usize>(
    store: &Arc<SpinMutex<PidAllocatorInner<ORDER>>>,
    number: usize,
) -> (r: bool)
    ensures
        (number as int) >= PidAllocatorInner::<ORDER>::spec_capacity() ==> r == false,
{
    store.lock().contains(number)
}

/// A thread-safe PID allocator that can allocate and recycle PIDs
/// efficiently. It keeps its state behind a reference-counted spin lock so
/// that independent handles — and outstanding `Pid` values — can safely
/// share one pool across threads.
#[verifier::reject_recursive_types(ORDER)]
pub struct PidAllocator<const ORDER: usize> {
    inner: Arc<SpinMutex<PidAllocatorInner<ORDER>>>,
    initial: Ghost<PidAllocatorInner<ORDER>>,
}

impl<const ORDER: usize> Clone for PidAllocator<ORDER> {
    /// Cloning an allocator handle yields another handle referring to the
    /// same underlying store — the pool is shared, not copied.
    fn clone(&self) -> (r: Self)
        ensures
            r.pool_at_creation() == self.pool_at_creation(),
    {
        proof {
            use_type_invariant(self);
        }
        PidAllocator { inner: share_store(&self.inner), initial: self.initial }
    }
}

/// A handle to an allocated PID. When dropped, the PID is automatically
/// recycled back into the allocator.
#[derive(Debug)]
#[verifier::reject_recursive_types(ORDER)]
pub struct Pid<const ORDER: usize> {
    number: usize,
    allocator: Arc<SpinMutex<PidAllocatorInner<ORDER>>>,
}

impl<const ORDER: usize> PidAllocator<ORDER> {
    /// The bitmap store this handle was created over: the ghost snapshot of
    /// the state handed to the mutex at construction.
    pub closed spec fn pool_at_creation(self) -> PidAllocatorInner<ORDER> {
        self.initial@
    }

    #[verifier::type_invariant]
    spec fn wf_handle(self) -> bool {
        &&& ORDER <= 64
        &&& protected(*self.inner)
    }

    /// Creates a new instance of the PID allocator over an empty pool: all
    /// `ORDER * WORD_BITS` PIDs free, none allocated. The summary word has
    /// one bit per detail word, so `ORDER` is at most 64.
    pub fn new() -> (r: Self)
        requires
            ORDER <= 64,
        ensures
            r.pool_at_creation().wf(),
            r.pool_at_creation().is_empty(),
    {
        let store = PidAllocatorInner::new();
        let ghost snapshot = store;
        PidAllocator { inner: Arc::new(new_store(store)), initial: Ghost(snapshot) }
    }

    /// Attempts to allocate a new PID. Returns `Some(Pid)` if successful, or
    /// `None` if all PIDs are currently allocated; exhaustion is an expected
    /// outcome for the caller to handle, not a fault. The allocated PID is
    /// wrapped in a `Pid` object, which will automatically recycle the PID
    /// when dropped.
    pub fn allocate(&self) -> (r: Option<Pid<ORDER>>)
        ensures
            r matches Some(p) ==> (p.id() as int) < PidAllocatorInner::<ORDER>::spec_capacity(),
    {
        proof {
            use_type_invariant(self);
        }
        match lock_allocate(&self.inner) {
            Some(number) => Some(Pid::bind(number, share_store(&self.inner))),
            None => None,
        }
    }

    /// Checks whether a given PID is currently allocated. Out-of-range PIDs
    /// are reported as not allocated. In concurrent use the answer may be
    /// stale as soon as it is returned.
    pub fn contains(&self, number: usize) -> (r: bool)
        ensures
            (number as int) >= PidAllocatorInner::<ORDER>::spec_capacity() ==> r == false,
    {
        lock_contains(&self.inner, number)
    }
}

impl<const ORDER: usize> Pid<ORDER> {
    /// The allocated integer this handle represents.
    pub closed spec fn id(self) -> usize {
        self.number
    }

    #[verifier::type_invariant]
    spec fn in_range(self) -> bool {
        &&& ORDER <= 64
        &&& (self.number as int) < PidAllocatorInner::<ORDER>::spec_capacity()
        &&& protected(*self.allocator)
    }

    /// Binds a freshly allocated ID to the shared store it came from, so
    /// that dropping the handle can recycle exactly this ID into exactly
    /// that store.
    fn bind(number: usize, allocator: Arc<SpinMutex<PidAllocatorInner<ORDER>>>) -> (p: Self)
        requires
            ORDER <= 64,
            (number as int) < PidAllocatorInner::<ORDER>::spec_capacity(),
            protected(*allocator),
        ensures
            p.id() == number,
    {
        Pid { number, allocator }
    }

    /// Read access to the underlying integer. The value never changes after
    /// creation and always lies below the pool capacity.
    pub fn number(&self) -> (r: usize)
        ensures
            r == self.id(),
            (r as int) < PidAllocatorInner::<ORDER>::spec_capacity(),
    {
        proof {
            use_type_invariant(self);
        }
        self.number
    }
}

impl<const ORDER: usize> Drop for Pid<ORDER> {
    /// Recycles the held PID, exactly once, on every exit path.
    fn drop(&mut self)
        opens_invariants none
        no_unwind
    {
        proof {
            use_type_invariant(&*self);
        }
        lock_recycle(&self.allocator, self.number);
    }
}

} // verus!
