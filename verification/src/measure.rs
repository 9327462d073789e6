//! Measures: what one benchmark observation records.
//!
//! [`Measure`] is the capability a benchmark driver needs: run the
//! workload once and record its cost, then say whether the data gathered
//! so far is enough. [`TimeMeasure`] records wall-clock time per
//! repetition with a minimum-total-time stopping rule; [`MemoryMeasure`]
//! records the allocation delta per repetition and is satisfied after a
//! single observation.

use vstd::prelude::*;

use crate::counters::{spec_div, spec_sub, MemStats, StatsSource};
use crate::{Params, Reset, Workload};

verus! {

#[verifier::external_type_specification]
#[verifier::external_body]
pub struct ExInstant(std::time::Instant);

/// Relies on std::time::Instant::now: an opaque marker for the present
/// point in time. Nothing is promised of the value: it depends on the
/// clock.
pub assume_specification[ std::time::Instant::now ]() -> std::time::Instant;

/// Relies on std::time::Instant::elapsed: the time from the marker to
/// now. Nothing is promised of the value: it depends on the clock.
pub assume_specification[ std::time::Instant::elapsed ](
    i: &std::time::Instant,
) -> core::time::Duration;

/// The whole of a duration in nanoseconds.
pub uninterp spec fn duration_ns(d: core::time::Duration) -> u128;

/// Relies on core::time::Duration::as_nanos: the total number of
/// nanoseconds contained by the duration, a function of the duration
/// alone.
pub assume_specification[ core::time::Duration::as_nanos ](
    d: &core::time::Duration,
) -> (r: u128)
    ensures
        r == duration_ns(*d),
;

/// `a + b` capped at `u128::MAX`.
pub open spec fn sat_add_u128(a: int, b: int) -> int {
    if a + b <= u128::MAX {
        a + b
    } else {
        u128::MAX as int
    }
}

fn add_saturating(a: u128, b: u128) -> (r: u128)
    ensures
        r as int == sat_add_u128(a as int, b as int),
{
    if a <= u128::MAX - b {
        a + b
    } else {
        u128::MAX
    }
}

/// Measure is the output of a benchmark.
pub trait Measure<P: Params>: Reset {
    /// Well-formedness of the measure's state.
    spec fn minv(&self) -> bool;

    /// Whether the data gathered so far suffices.
    spec fn is_enough(&self, params: P) -> bool;

    /// What one observation run with `params` may do to the state.
    spec fn observed(&self, post: Self, params: P) -> bool;

    /// Returns true if the data is enough and no more measurements are
    /// needed. Pure: the measure is not changed.
    fn enough(&self, params: &P) -> (r: bool)
        requires
            self.minv(),
            params.inv(),
        ensures
            r == self.is_enough(*params),
    ;

    /// Observe runs the benchmark function once and updates the measure.
    fn observe<W: Workload<P, Self>>(&mut self, w: &mut W, params: &P)
        requires
            old(self).minv(),
            old(self).resettable(),
            params.inv(),
        ensures
            final(self).minv(),
            final(self).resettable(),
            old(self).observed(*final(self), *params),
    ;
}

/// TimeMeasure measures the time it takes to run a benchmark, enforcing a
/// minimum total time before it is satisfied.
///
/// All durations are held as whole nanoseconds.
pub struct TimeMeasure {
    /// The minimum total time, in nanoseconds, the last observation must
    /// reach before the measure reports enough data.
    pub min_time: u128,
    /// The marker the measured region started at.
    pub start: std::time::Instant,
    /// Time per repetition, in nanoseconds, accumulated over observations.
    pub time: u128,
    /// Raw duration of the last observation, in nanoseconds.
    pub total_time: u128,
}

impl TimeMeasure {
    /// Creates a new TimeMeasure with a minimum time of 1 second.
    pub fn new() -> (m: TimeMeasure)
        ensures
            m.min_time == 1_000_000_000,
            m.time == 0,
            m.total_time == 0,
    {
        TimeMeasure {
            min_time: 1_000_000_000,
            start: std::time::Instant::now(),
            time: 0,
            total_time: 0,
        }
    }

    /// Creates a new TimeMeasure with a minimum time of `min_time`.
    pub fn with_min_time(min_time: core::time::Duration) -> (m: TimeMeasure)
        ensures
            m.min_time == duration_ns(min_time),
            m.time == 0,
            m.total_time == 0,
    {
        TimeMeasure {
            min_time: min_time.as_nanos(),
            start: std::time::Instant::now(),
            time: 0,
            total_time: 0,
        }
    }

    fn start(&mut self)
        ensures
            final(self).min_time == old(self).min_time,
            final(self).time == old(self).time,
            final(self).total_time == old(self).total_time,
    {
        self.start = std::time::Instant::now();
    }

    fn stop(&mut self)
        ensures
            final(self).min_time == old(self).min_time,
            final(self).time == old(self).time,
    {
        let elapsed = self.start.elapsed();
        self.total_time = elapsed.as_nanos();
    }
}

impl Default for TimeMeasure {
    /// The default measure asks for a minimum total time of 1 second.
    fn default() -> (m: Self)
        ensures
            m.min_time == 1_000_000_000,
            m.time == 0,
            m.total_time == 0,
    {
        TimeMeasure {
            min_time: 1_000_000_000,
            start: std::time::Instant::now(),
            time: 0,
            total_time: 0,
        }
    }
}

impl Reset for TimeMeasure {
    open spec fn resettable(&self) -> bool {
        true
    }

    /// A reset re-captures the start marker and touches nothing else.
    open spec fn reset_ok(&self, post: Self) -> bool {
        post.min_time == self.min_time && post.time == self.time && post.total_time
            == self.total_time
    }

    fn reset(&mut self) {
        self.start = std::time::Instant::now();
    }
}

impl<P: Params> Measure<P> for TimeMeasure {
    open spec fn minv(&self) -> bool {
        true
    }

    /// Enough exactly when the last observation's raw duration reached the
    /// configured minimum.
    open spec fn is_enough(&self, params: P) -> bool {
        self.total_time >= self.min_time
    }

    /// One observation leaves the minimum alone, records some raw elapsed
    /// duration, and adds that duration divided by the repetition count to
    /// the accumulated per-repetition time.
    open spec fn observed(&self, post: Self, params: P) -> bool {
        post.min_time == self.min_time && post.time as int == sat_add_u128(
            self.time as int,
            post.total_time as int / params.reps() as int,
        )
    }

    fn enough(&self, params: &P) -> bool {
        self.total_time >= self.min_time
    }

    fn observe<W: Workload<P, Self>>(&mut self, w: &mut W, params: &P) {
        self.start();
        w.run(params, self);
        self.stop();
        let n = params.nreps();
        let per = self.total_time / (n as u128);
        self.time = add_saturating(self.time, per);
    }
}

/// A time measure reports enough data exactly when the raw elapsed
/// duration of its latest observation is at least the configured minimum
/// — never when it is below it.
pub proof fn lemma_time_enough_iff_min_reached<P: Params>(m: TimeMeasure, p: P)
    ensures
        Measure::<P>::is_enough(&m, p) <==> m.total_time >= m.min_time,
{
}

/// A fresh time measure — one with no accumulated time, as the benchmark
/// driver builds on every iteration — reports, after its one observation,
/// exactly the observation's raw duration divided by the repetition count.
pub proof fn lemma_time_fresh_observation<P: Params>(pre: TimeMeasure, post: TimeMeasure, p: P)
    requires
        pre.time == 0,
        p.reps() >= 1,
        Measure::<P>::observed(&pre, post, p),
    ensures
        post.time == post.total_time as int / p.reps() as int,
{
    assert(0 <= post.total_time as int / p.reps() as int <= u128::MAX) by (nonlinear_arith)
        requires
            p.reps() >= 1,
            0 <= post.total_time <= u128::MAX,
    ;
}

/// MemoryMeasure measures the memory allocated by a benchmark.
///
/// It reads allocation totals through a [`StatsSource`] before and after
/// the workload runs and reports the per-repetition difference. One
/// observation is always enough: memory measurement is single-shot.
pub struct MemoryMeasure<S: StatsSource + 'static> {
    /// The source the totals are read from.
    pub source: &'static S,
    /// The totals at the start of the measured region.
    pub start: MemStats,
    /// Memory allocations per repetition.
    pub memory: MemStats,
}

impl<S: StatsSource + 'static> MemoryMeasure<S> {
    /// Creates a new MemoryMeasure reading totals from `source`.
    pub fn new(source: &'static S) -> (m: MemoryMeasure<S>)
        ensures
            m.source == source,
            m.start == (MemStats { alloc_count: 0, allocated: 0 }),
            m.memory == (MemStats { alloc_count: 0, allocated: 0 }),
    {
        MemoryMeasure {
            source,
            start: MemStats { alloc_count: 0, allocated: 0 },
            memory: MemStats { alloc_count: 0, allocated: 0 },
        }
    }

    fn start(&mut self)
        ensures
            final(self).source == old(self).source,
            final(self).memory == old(self).memory,
    {
        self.start = self.source.snapshot();
    }

    fn stop(&mut self)
        ensures
            final(self).source == old(self).source,
            final(self).start == old(self).start,
            exists|after: MemStats| final(self).memory == spec_sub(after, final(self).start),
    {
        let after = self.source.snapshot();
        self.memory = after.sub(&self.start);
    }
}

impl<S: StatsSource + 'static> Reset for MemoryMeasure<S> {
    open spec fn resettable(&self) -> bool {
        true
    }

    /// A reset re-captures the start snapshot and touches nothing else.
    open spec fn reset_ok(&self, post: Self) -> bool {
        post.source == self.source && post.memory == self.memory
    }

    fn reset(&mut self) {
        self.start = self.source.snapshot();
    }
}

impl<S: StatsSource + 'static, P: Params> Measure<P> for MemoryMeasure<S> {
    open spec fn minv(&self) -> bool {
        true
    }

    /// One observation is always enough, whatever the parameter.
    open spec fn is_enough(&self, params: P) -> bool {
        true
    }

    /// One observation keeps the source and reports, for some later
    /// reading of it, the field-wise difference from the recorded start
    /// snapshot, divided by the repetition count.
    open spec fn observed(&self, post: Self, params: P) -> bool {
        post.source == self.source && (exists|after: MemStats|
            post.memory == spec_div(spec_sub(after, post.start), params.reps() as int))
    }

    fn enough(&self, params: &P) -> bool {
        true
    }

    fn observe<W: Workload<P, Self>>(&mut self, w: &mut W, params: &P) {
        self.start();
        w.run(params, self);
        self.stop();
        let n = params.nreps();
        let ghost before = self.start;
        let ghost mid = self.memory;
        self.memory = self.memory.div(n);
        proof {
            let after = choose|after: MemStats| mid == spec_sub(after, before);
            assert(self.start == before);
            assert(self.memory == spec_div(spec_sub(after, self.start), params.reps() as int));
        }
    }
}

/// A memory measure is single-shot: its stopping rule holds of every
/// state, for every parameter value, so one observation always suffices.
pub proof fn lemma_memory_single_shot<S: StatsSource + 'static, P: Params>(
    m: MemoryMeasure<S>,
    p: P,
)
    ensures
        Measure::<P>::is_enough(&m, p),
{
}

} // verus!
