use std::cell::Cell;

use gbenchmark::counters::{CountingAllocator, MemStats, StatsSource};
use gbenchmark::measure::{Measure, MemoryMeasure};
use gbenchmark::{Benchmark, Params, RepetitionParams, Reset, Workload};

/// A fake counter resource for tests: totals live in cells, so a shared
/// reference can watch them move while a workload "allocates".
struct FakeSource {
    count: Cell<usize>,
    bytes: Cell<usize>,
}

impl FakeSource {
    fn leaked() -> &'static FakeSource {
        Box::leak(Box::new(FakeSource {
            count: Cell::new(0),
            bytes: Cell::new(0),
        }))
    }

    fn bump(&self, allocs: usize, bytes: usize) {
        self.count.set(self.count.get() + allocs);
        self.bytes.set(self.bytes.get() + bytes);
    }
}

impl StatsSource for FakeSource {
    fn snapshot(&self) -> MemStats {
        MemStats {
            alloc_count: self.count.get(),
            allocated: self.bytes.get(),
        }
    }
}

/// Allocates exactly three 100-byte blocks per repetition.
struct ThreeBlocksPerRep {
    src: &'static FakeSource,
}

impl Workload<RepetitionParams, MemoryMeasure<FakeSource>> for ThreeBlocksPerRep {
    fn run(&mut self, params: &RepetitionParams, _reset: &mut MemoryMeasure<FakeSource>) {
        for _ in 0..Params::nreps(params) {
            self.src.bump(1, 100);
            self.src.bump(1, 100);
            self.src.bump(1, 100);
        }
    }
}

#[test]
fn memory_measure_reports_per_repetition_deltas() {
    let src = FakeSource::leaked();
    src.bump(5, 777); // activity before the measurement must not count
    let mut m = MemoryMeasure::new(src);
    let p = RepetitionParams { nreps: 10 };
    let mut w = ThreeBlocksPerRep { src };
    m.observe(&mut w, &p);
    assert_eq!(m.memory.alloc_count, 3);
    assert_eq!(m.memory.allocated, 300);
}

struct NoWork;

impl<S: StatsSource> Workload<RepetitionParams, MemoryMeasure<S>> for NoWork {
    fn run(&mut self, _params: &RepetitionParams, _reset: &mut MemoryMeasure<S>) {}
}

#[test]
fn memory_measure_is_enough_after_one_observation() {
    let src: &'static CountingAllocator = Box::leak(Box::new(CountingAllocator::new()));
    let mut m = MemoryMeasure::new(src);
    let p = RepetitionParams { nreps: 1 };
    let q = RepetitionParams { nreps: 4096 };
    assert!(m.enough(&p));
    assert!(m.enough(&q));
    let mut w = NoWork;
    m.observe(&mut w, &p);
    assert!(m.enough(&p));
    assert!(m.enough(&q));
    assert_eq!(m.memory.alloc_count, 0);
    assert_eq!(m.memory.allocated, 0);
}

/// Bumps the totals, then resets, then bumps a little more.
struct ResetsHalfway {
    src: &'static FakeSource,
}

impl Workload<RepetitionParams, MemoryMeasure<FakeSource>> for ResetsHalfway {
    fn run(&mut self, _params: &RepetitionParams, reset: &mut MemoryMeasure<FakeSource>) {
        self.src.bump(5, 5000);
        reset.reset();
        self.src.bump(2, 20);
    }
}

#[test]
fn reset_excludes_allocations_before_the_call() {
    let src = FakeSource::leaked();
    let mut m = MemoryMeasure::new(src);
    let p = RepetitionParams { nreps: 1 };
    let mut w = ResetsHalfway { src };
    m.observe(&mut w, &p);
    assert_eq!(m.memory.alloc_count, 2);
    assert_eq!(m.memory.allocated, 20);
}

/// Allocates four 100-byte blocks per repetition.
struct FourBlocksPerRep {
    src: &'static FakeSource,
}

impl Workload<RepetitionParams, MemoryMeasure<FakeSource>> for FourBlocksPerRep {
    fn run(&mut self, params: &RepetitionParams, _reset: &mut MemoryMeasure<FakeSource>) {
        for _ in 0..Params::nreps(params) {
            self.src.bump(4, 400);
        }
    }
}

#[test]
fn benchmark_with_memory_measure_stops_after_one_iteration() {
    let src = FakeSource::leaked();
    let bench = Benchmark::new(RepetitionParams::default, || MemoryMeasure::new(src));
    let mut w = FourBlocksPerRep { src };
    let result = bench.benchmark(&mut w);
    // single-shot: the parameter never grew
    assert_eq!(result.params.nreps, 1);
    assert_eq!(result.measure.memory.alloc_count, 4);
    assert_eq!(result.measure.memory.allocated, 400);
}
