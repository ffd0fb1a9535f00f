use cm::cache::AccessTracker;

#[test]
fn cold_access_misses_everywhere_then_hits() {
    let mut t = AccessTracker::new();
    t.access(0, 4);
    assert_eq!((t.accesses, t.l1m, t.l2m, t.l3m, t.clock), (1, 1, 1, 1, 1));
    t.access(0, 4);
    assert_eq!((t.accesses, t.l1m, t.l2m, t.l3m, t.clock), (2, 1, 1, 1, 2));
    assert_eq!(t.memcost(), 14 + 40 + 200);
}

#[test]
fn access_spanning_two_lines_looks_both_up() {
    let mut t = AccessTracker::new();
    t.access(0, 4);
    t.access(60, 8);
    assert_eq!((t.accesses, t.clock, t.l1m, t.l2m, t.l3m), (2, 3, 2, 2, 2));
    assert_eq!(t.memcost(), 2 * 14 + 2 * 40 + 2 * 200);
}

#[test]
fn zero_size_counts_as_one_byte() {
    let mut t = AccessTracker::new();
    t.access(63, 0);
    assert_eq!(t.clock, 1);
    t.access(64, 0);
    assert_eq!((t.clock, t.l1m), (2, 2));
}

#[test]
fn l1_eviction_is_least_recently_used() {
    // 64 sets of 8 ways: lines 64 apart share a set.
    let mut t = AccessTracker::new();
    for k in 0..9u32 {
        t.access(k * 64 * 64, 1);
    }
    assert_eq!(t.l1m, 9);
    // Line 0 was the least recently used and was evicted from L1 (L2 still
    // holds it); line 1*64*64 is still in L1.
    t.access(64 * 64, 1);
    assert_eq!((t.l1m, t.l2m), (9, 9));
    t.access(0, 1);
    assert_eq!((t.l1m, t.l2m), (10, 9));
}

#[test]
fn a_fresh_tracker_holds_no_line() {
    let mut t = AccessTracker::new();
    t.access(60, 8);
    t.access(0, 4);
    assert_eq!((t.accesses, t.l1m, t.l2m, t.l3m), (2, 2, 2, 2));
    assert_eq!(t.memcost(), 508);
}
