use gbenchmark::counters::{CountingAllocator, MemStats, StatsSource};

#[test]
fn counting_allocator_records_count_and_bytes() {
    let mut c = CountingAllocator::new();
    c.record_alloc(100);
    c.record_alloc(100);
    c.record_alloc(100);
    let s = c.stats();
    assert_eq!(s.alloc_count, 3);
    assert_eq!(s.allocated, 300);
}

#[test]
fn counting_allocator_starts_at_zero() {
    let c = CountingAllocator::new();
    assert_eq!(c.stats().alloc_count, 0);
    assert_eq!(c.stats().allocated, 0);
    assert_eq!(MemStats::zero(), *c.stats());
}

#[test]
fn snapshot_difference_is_exact() {
    let a = MemStats {
        alloc_count: 2,
        allocated: 150,
    };
    let b = MemStats {
        alloc_count: 7,
        allocated: 1000,
    };
    let d = b.sub(&a);
    assert_eq!(d.alloc_count, 5);
    assert_eq!(d.allocated, 850);
}

#[test]
fn snapshot_difference_of_equal_snapshots_is_zero() {
    let a = MemStats {
        alloc_count: 9,
        allocated: 512,
    };
    let d = a.sub(&a);
    assert_eq!(d.alloc_count, 0);
    assert_eq!(d.allocated, 0);
}

#[test]
fn snapshot_difference_saturates_at_zero() {
    let small = MemStats {
        alloc_count: 1,
        allocated: 10,
    };
    let big = MemStats {
        alloc_count: 4,
        allocated: 40,
    };
    let d = small.sub(&big);
    assert_eq!(d.alloc_count, 0);
    assert_eq!(d.allocated, 0);
}

#[test]
fn division_is_field_wise_floor() {
    let m = MemStats {
        alloc_count: 7,
        allocated: 1001,
    };
    let d = m.div(2);
    assert_eq!(d.alloc_count, 3);
    assert_eq!(d.allocated, 500);
}

#[test]
fn division_by_one_changes_nothing() {
    let m = MemStats {
        alloc_count: 3,
        allocated: 300,
    };
    let d = m.div(1);
    assert_eq!(d, m);
}

#[test]
fn taking_a_snapshot_does_not_mutate_the_counters() {
    let mut c = CountingAllocator::new();
    c.record_alloc(64);
    let first = *c.stats();
    let second = c.snapshot();
    let third = *c.stats();
    assert_eq!(first, second);
    assert_eq!(first, third);
    assert_eq!(first.alloc_count, 1);
    assert_eq!(first.allocated, 64);
}

#[test]
fn recording_saturates_instead_of_wrapping() {
    let mut c = CountingAllocator::new();
    c.record_alloc(usize::MAX);
    c.record_alloc(usize::MAX);
    assert_eq!(c.stats().alloc_count, 2);
    assert_eq!(c.stats().allocated, usize::MAX);
}
