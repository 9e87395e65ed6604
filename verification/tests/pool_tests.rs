use pid_allocator::PidAllocator;
use pid_allocator::PidAllocatorInner;

#[test]
fn sequential_ids_from_fresh_pool() {
    let allocator = PidAllocator::<1>::new();
    let mut pids = Vec::new();
    for expected in 0..64usize {
        let pid = allocator
            .allocate()
            .expect("an allocation within capacity must succeed");
        assert_eq!(pid.number(), expected, "lowest free ID must win");
        pids.push(pid);
    }
    assert!(
        allocator.allocate().is_none(),
        "the allocation past capacity must report exhaustion"
    );
}

#[test]
fn lowest_free_id_after_recycle() {
    let allocator = PidAllocator::<1>::new();
    let mut pids = Vec::new();
    for _ in 0..64usize {
        pids.push(allocator.allocate().expect("filling the pool must succeed"));
    }
    assert!(allocator.allocate().is_none());
    let pid5 = pids.remove(5);
    assert_eq!(pid5.number(), 5);
    drop(pid5);
    let again = allocator
        .allocate()
        .expect("a freed ID must be allocatable again");
    assert_eq!(again.number(), 5, "the freed ID itself must come back");
}

#[test]
fn exhaustion_at_exact_capacity() {
    let allocator = PidAllocator::<2>::new();
    let mut pids = Vec::new();
    for _ in 0..127usize {
        pids.push(
            allocator
                .allocate()
                .expect("any allocation below capacity must succeed"),
        );
    }
    let last = allocator
        .allocate()
        .expect("the last free ID must still be allocatable");
    assert!(
        allocator.allocate().is_none(),
        "the pool must report exhaustion once full"
    );
    drop(last);
    assert!(
        allocator.allocate().is_some(),
        "a recycled ID must be allocatable again"
    );
}

#[test]
fn all_allocated_ids_distinct() {
    let allocator = PidAllocator::<2>::new();
    let mut pids = Vec::new();
    for _ in 0..128usize {
        pids.push(allocator.allocate().expect("filling the pool must succeed"));
    }
    let mut seen = vec![false; 128];
    for pid in &pids {
        let n = pid.number();
        assert!(n < 128, "every ID lies below the capacity");
        assert!(!seen[n], "no ID is handed out twice");
        seen[n] = true;
    }
}

#[test]
fn full_cycle_reallocation() {
    let allocator = PidAllocator::<1>::new();
    let mut pids: Vec<Option<_>> = Vec::new();
    for _ in 0..64usize {
        pids.push(Some(
            allocator.allocate().expect("filling the pool must succeed"),
        ));
    }
    assert!(allocator.allocate().is_none());

    // Drop every handle in a scrambled order: odd IDs ascending, then even
    // IDs descending.
    let mut order = Vec::new();
    let mut i = 1usize;
    while i < 64 {
        order.push(i);
        i += 2;
    }
    let mut j = 62usize;
    loop {
        order.push(j);
        if j == 0 {
            break;
        }
        j -= 2;
    }
    for &k in &order {
        pids[k] = None; // drops the handle, recycling its ID
    }

    // The second pass fills the pool again, from the lowest ID up.
    let mut second = Vec::new();
    for expected in 0..64usize {
        let pid = allocator
            .allocate()
            .expect("the second pass must fill the pool again");
        assert_eq!(pid.number(), expected);
        second.push(pid);
    }
    assert!(allocator.allocate().is_none());
}

#[test]
fn contains_out_of_range_is_false() {
    let allocator = PidAllocator::<1>::new();
    let _pid = allocator.allocate();
    assert!(!allocator.contains(64));
    assert!(!allocator.contains(65));
    assert!(!allocator.contains(usize::MAX));
}

#[test]
fn inner_recycle_correctness() {
    let mut inner = PidAllocatorInner::<4>::new();
    let x = inner.allocate().expect("a fresh store must allocate");
    assert!(inner.contains(x), "an allocated ID is reported allocated");
    inner.recycle(x);
    assert!(!inner.contains(x), "a recycled ID is reported free");
}

#[test]
fn inner_sequential_allocation() {
    let mut inner = PidAllocatorInner::<1>::new();
    for expected in 0..64usize {
        assert_eq!(inner.allocate(), Some(expected));
    }
    assert_eq!(inner.allocate(), None);
    inner.recycle(17);
    assert_eq!(inner.allocate(), Some(17));
}

#[test]
fn inner_crosses_word_boundary() {
    let mut inner = PidAllocatorInner::<2>::new();
    for expected in 0..65usize {
        assert_eq!(inner.allocate(), Some(expected));
    }
    assert!(inner.contains(64));
    inner.recycle(3);
    assert_eq!(
        inner.allocate(),
        Some(3),
        "the lowest free ID wins across detail words"
    );
    assert_eq!(inner.allocate(), Some(65));
}

#[test]
fn cloned_handle_shares_the_pool() {
    let allocator = PidAllocator::<1>::new();
    let other_handle = allocator.clone();
    let pid = allocator.allocate().expect("allocation must succeed");
    assert!(
        other_handle.contains(pid.number()),
        "a cloned handle refers to the same pool, not a copy"
    );
    let second = other_handle
        .allocate()
        .expect("allocation through the clone must succeed");
    assert_ne!(pid.number(), second.number());
    drop(pid);
    drop(second);
    assert!(!allocator.contains(0));
    assert!(!allocator.contains(1));
}
