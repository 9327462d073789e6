//! A micro-benchmarking harness.
//!
//! A benchmark consumes a **parameter** (how much work one observation
//! runs, e.g. a repetition count) and produces one **measure** (what one
//! observation recorded, e.g. elapsed time or allocated memory). The
//! measure looks at the parameter and at its own data to decide whether
//! the benchmark is finished or the parameter should grow.
//!
//! [`Benchmark::benchmark`] drives the loop: it builds a parameter once,
//! builds a fresh measure every iteration, lets the measure observe the
//! workload, and stops as soon as the measure reports enough data (or the
//! parameter cannot grow any further).

use vstd::prelude::*;

pub mod counters;
pub mod measure;

use measure::Measure;

verus! {

/// Trait for benchmark parameters: how much work the next observation
/// should run, and how that amount grows when a measure asks for more.
pub trait Params: Sized {
    /// Well-formedness of the parameter state.
    spec fn inv(&self) -> bool;

    /// The current repetition count, as a mathematical integer.
    spec fn reps(&self) -> nat;

    /// How many growth steps can still be taken before the representation
    /// would overflow.
    spec fn growth_left(&self) -> nat;

    /// What one growth step does to the state.
    spec fn grown(&self, post: Self) -> bool;

    /// Number of repetitions in total.
    fn nreps(&self) -> (n: usize)
        requires
            self.inv(),
        ensures
            n as nat == self.reps(),
            n >= 1,
    ;

    /// Whether a further growth step is possible.
    fn can_grow(&self) -> (b: bool)
        requires
            self.inv(),
        ensures
            b == (self.growth_left() > 0),
    ;

    /// A measure asked for more repetitions: grow in place.
    fn more(&mut self)
        requires
            old(self).inv(),
            old(self).growth_left() > 0,
        ensures
            final(self).inv(),
            old(self).grown(*final(self)),
            final(self).growth_left() < old(self).growth_left(),
    ;
}

/// A simple parameter that doubles the number of repetitions each time.
#[derive(Clone, Copy, Debug, PartialEq, Eq, Structural)]
pub struct RepetitionParams {
    /// Number of repetitions in total.
    pub nreps: usize,
}

impl Params for RepetitionParams {
    /// The count is positive; it starts at one and only ever doubles.
    open spec fn inv(&self) -> bool {
        self.nreps >= 1
    }

    open spec fn reps(&self) -> nat {
        self.nreps as nat
    }

    /// Growth stops at the last count whose double still fits in `usize`.
    open spec fn growth_left(&self) -> nat {
        if self.nreps <= usize::MAX / 2 {
            (usize::MAX / 2 + 1 - self.nreps) as nat
        } else {
            0
        }
    }

    /// One growth step doubles the count, exactly.
    open spec fn grown(&self, post: Self) -> bool {
        post.nreps == 2 * self.nreps
    }

    fn nreps(&self) -> usize {
        self.nreps
    }

    fn can_grow(&self) -> bool {
        self.nreps <= usize::MAX / 2
    }

    fn more(&mut self) {
        self.nreps = self.nreps * 2;
    }
}

impl Default for RepetitionParams {
    /// The default parameter runs the workload once.
    fn default() -> (p: Self)
        ensures
            p.nreps == 1,
    {
        RepetitionParams { nreps: 1 }
    }
}

/// 2 to the power `k`.
pub open spec fn pow2(k: nat) -> nat
    decreases k,
{
    if k == 0 {
        1
    } else {
        2 * pow2((k - 1) as nat)
    }
}

/// Growth law, one step: a growth step strictly increases the repetition
/// count, and carries a power of two to the next power of two.
pub proof fn lemma_growth_step(p: RepetitionParams, q: RepetitionParams, k: nat)
    requires
        p.inv(),
        p.grown(q),
        p.nreps == pow2(k),
    ensures
        q.nreps > p.nreps,
        q.nreps == pow2(k + 1),
{
    assert(pow2(k + 1) == 2 * pow2(k));
}

/// Growth law, whole run: along any chain of growth steps that starts at
/// the default repetition count of one, the count after `i` steps is
/// exactly 2^i; in particular the chain is strictly increasing and every
/// count is a power of two.
pub proof fn lemma_growth_sequence(s: Seq<RepetitionParams>, i: int)
    requires
        s.len() > 0,
        s[0].nreps == 1,
        forall|j: int| 0 <= j < s.len() - 1 ==> s[j].grown(#[trigger] s[j + 1]),
        0 <= i < s.len(),
    ensures
        s[i].nreps == pow2(i as nat),
        i > 0 ==> s[i - 1].nreps < s[i].nreps,
    decreases i,
{
    if i > 0 {
        lemma_growth_sequence(s, i - 1);
        assert(s[i - 1].grown(s[(i - 1) + 1]));
        assert(pow2(i as nat) == 2 * pow2((i - 1) as nat));
    }
}

/// Final parameters and measure of a benchmark.
pub struct BenchmarkResult<P: Params, M: Measure<P>> {
    /// The parameters used for the benchmark.
    pub params: P,
    /// The measure of the benchmark.
    pub measure: M,
}

/// A Benchmark system.
///
/// It holds a factory for the parameters and a factory for the measure,
/// which will be used to initialize the parameters and measure for each
/// benchmark.
#[verifier::reject_recursive_types(P)]
#[verifier::reject_recursive_types(M)]
pub struct Benchmark<P: Params, PF: Fn() -> P, M: Measure<P>, MF: Fn() -> M> {
    params_factory: PF,
    measure_factory: MF,
}

impl<P, PF, M, MF> Benchmark<P, PF, M, MF> where
    P: Params,
    PF: Fn() -> P,
    M: Measure<P>,
    MF: Fn() -> M,
 {
    /// The factory the parameters come from.
    pub closed spec fn spec_params_factory(&self) -> PF {
        self.params_factory
    }

    /// The factory a fresh measure comes from on every loop iteration.
    pub closed spec fn spec_measure_factory(&self) -> MF {
        self.measure_factory
    }

    /// Both factories may be called, and everything they can produce is
    /// well-formed.
    pub open spec fn wf(&self) -> bool {
        &&& call_requires(self.spec_params_factory(), ())
        &&& call_requires(self.spec_measure_factory(), ())
        &&& forall|p: P| #[trigger] call_ensures(self.spec_params_factory(), (), p) ==> p.inv()
        &&& forall|m: M| #[trigger]
            call_ensures(self.spec_measure_factory(), (), m) ==> m.minv() && m.resettable()
    }

    /// `m` is what one factory-fresh measure became after its single
    /// observation with the parameter `p`.
    pub open spec fn fresh_and_observed(&self, m: M, p: P) -> bool {
        exists|m0: M|
            {
                &&& #[trigger] call_ensures(self.spec_measure_factory(), (), m0)
                &&& m0.observed(m, p)
            }
    }

    /// The whole history of one driver run: `s` are the parameter states,
    /// iteration by iteration, and `ms` the measures they were observed
    /// with. The first parameter came from the factory and each later one
    /// from exactly one growth step; every iteration observed a fresh
    /// measure once, with that iteration's parameter; every iteration but
    /// the last found its observation insufficient — the parameter grows
    /// only after an observation that reported not enough; and the last
    /// pair is what the run returned.
    pub open spec fn run_trace(&self, s: Seq<P>, ms: Seq<M>, r: BenchmarkResult<P, M>) -> bool {
        &&& s.len() >= 1
        &&& ms.len() == s.len()
        &&& call_ensures(self.spec_params_factory(), (), s[0])
        &&& forall|j: int| 0 <= j < s.len() - 1 ==> s[j].grown(#[trigger] s[j + 1])
        &&& forall|j: int| 0 <= j < s.len() ==> #[trigger] self.fresh_and_observed(ms[j], s[j])
        &&& forall|j: int| 0 <= j < s.len() - 1 ==> !(#[trigger] ms[j].is_enough(s[j]))
        &&& s.last() == r.params
        &&& ms.last() == r.measure
    }

    /// Create a new benchmark.
    pub fn new(params_factory: PF, measure_factory: MF) -> (b: Self)
        ensures
            b.spec_params_factory() == params_factory,
            b.spec_measure_factory() == measure_factory,
    {
        Benchmark { params_factory, measure_factory }
    }

    /// Benchmark a workload to the [`Measure`]'s satisfaction.
    ///
    /// One parameter is built and then grown in place across the whole
    /// loop; a fresh measure is built for every iteration, observes the
    /// workload once, and gates termination. The run follows a
    /// [`run_trace`](Self::run_trace): the parameter grows only after an
    /// observation that reported not enough, and the loop stops at the
    /// first parameter whose observation does report enough.
    ///
    /// One machine limit is handled explicitly: when the parameter cannot
    /// grow any further (for [`RepetitionParams`], once doubling the count
    /// would overflow `usize`), the last observation is handed back even
    /// though it did not suffice — stated as such in the contract — rather
    /// than repeating observations forever or letting the count wrap to
    /// zero.
    pub fn benchmark<W: Workload<P, M>>(&self, w: &mut W) -> (r: BenchmarkResult<P, M>)
        requires
            self.wf(),
        ensures
            r.params.inv(),
            r.measure.minv(),
            r.measure.is_enough(r.params) || r.params.growth_left() == 0,
            exists|s: Seq<P>, ms: Seq<M>| #[trigger] self.run_trace(s, ms, r),
    {
        let mut params = (self.params_factory)();
        proof {
            assert(call_ensures(self.spec_params_factory(), (), params));
        }
        let ghost mut trail: Seq<P> = seq![params];
        let ghost mut insufficient: Seq<M> = Seq::empty();
        loop
            invariant
                self.wf(),
                params.inv(),
                trail.len() >= 1,
                insufficient.len() == trail.len() - 1,
                call_ensures(self.spec_params_factory(), (), trail[0]),
                forall|j: int| 0 <= j < trail.len() - 1 ==> trail[j].grown(#[trigger] trail[j + 1]),
                forall|j: int|
                    0 <= j < insufficient.len() ==> #[trigger] self.fresh_and_observed(
                        insufficient[j],
                        trail[j],
                    ),
                forall|j: int|
                    0 <= j < insufficient.len() ==> !(#[trigger] insufficient[j].is_enough(
                        trail[j],
                    )),
                trail.last() == params,
            decreases params.growth_left(),
        {
            let mut measure = (self.measure_factory)();
            let ghost fresh = measure;
            proof {
                assert(call_ensures(self.spec_measure_factory(), (), fresh));
            }
            measure.observe(w, &params);
            let done = measure.enough(&params);
            if done || !params.can_grow() {
                let result = BenchmarkResult { params, measure };
                proof {
                    let s = trail;
                    let ms = insufficient.push(result.measure);
                    assert(self.fresh_and_observed(result.measure, result.params));
                    assert forall|j: int|
                        0 <= j < s.len() implies #[trigger] self.fresh_and_observed(
                        ms[j],
                        s[j],
                    ) by {
                        if j < s.len() - 1 {
                            assert(self.fresh_and_observed(insufficient[j], trail[j]));
                        }
                    }
                    assert(self.run_trace(s, ms, result));
                }
                return result;
            }
            let ghost prev = params;
            params.more();
            proof {
                let grown_trail = trail.push(params);
                let grown_insufficient = insufficient.push(measure);
                assert(self.fresh_and_observed(measure, prev));
                assert forall|j: int| 0 <= j < grown_trail.len() - 1 implies grown_trail[j].grown(
                    #[trigger] grown_trail[j + 1],
                ) by {
                    if j < trail.len() - 1 {
                        assert(trail[j].grown(trail[j + 1]));
                    }
                }
                assert forall|j: int|
                    0 <= j < grown_insufficient.len() implies #[trigger] self.fresh_and_observed(
                    grown_insufficient[j],
                    grown_trail[j],
                ) by {
                    if j < insufficient.len() {
                        assert(self.fresh_and_observed(insufficient[j], trail[j]));
                    }
                }
                assert forall|j: int|
                    0 <= j < grown_insufficient.len() implies !(
                #[trigger] grown_insufficient[j].is_enough(grown_trail[j])) by {
                    if j < insufficient.len() {
                        assert(!insufficient[j].is_enough(trail[j]));
                    }
                }
                trail = grown_trail;
                insufficient = grown_insufficient;
            }
        }
    }

    /// Single-shot law: with a measure whose every factory-fresh instance
    /// reports enough data after one observation, a run's history has
    /// exactly one entry — the workload was observed once and the
    /// parameter comes back exactly as the factory built it, never grown.
    pub proof fn lemma_single_shot_run(&self, s: Seq<P>, ms: Seq<M>, r: BenchmarkResult<P, M>)
        requires
            self.run_trace(s, ms, r),
            forall|m0: M, m: M, p: P|
                #![trigger call_ensures(self.spec_measure_factory(), (), m0), m0.observed(m, p)]
                call_ensures(self.spec_measure_factory(), (), m0) && m0.observed(m, p)
                    ==> m.is_enough(p),
        ensures
            s.len() == 1,
            ms.len() == 1,
            r.params == s[0],
            call_ensures(self.spec_params_factory(), (), r.params),
            self.fresh_and_observed(r.measure, r.params),
    {
        if s.len() > 1 {
            assert(self.fresh_and_observed(ms[0], s[0]));
            let m0 = choose|m0: M|
                {
                    &&& #[trigger] call_ensures(self.spec_measure_factory(), (), m0)
                    &&& m0.observed(ms[0], s[0])
                };
            assert(ms[0].is_enough(s[0]));
            assert(!ms[0].is_enough(s[0]));
        }
        assert(self.fresh_and_observed(ms[0], s[0]));
    }
}

/// A handle a workload may use to restart the measured region.
///
/// The active measure hands itself to the workload as this handle; calling
/// [`Reset::reset`] re-captures the measure's start marker, so everything
/// the workload did before the call is excluded from the measurement.
pub trait Reset: Sized {
    /// Whether the handle is in a state that a reset may act on.
    spec fn resettable(&self) -> bool;

    /// What a reset may do to the handle: everything but the start marker
    /// is left alone.
    spec fn reset_ok(&self, post: Self) -> bool;

    /// Restart the measured region here.
    fn reset(&mut self)
        requires
            old(self).resettable(),
        ensures
            final(self).resettable(),
            old(self).reset_ok(*final(self)),
    ;
}

/// A benchmark workload.
///
/// One run performs the work for the given parameter. The workload may
/// call `reset.reset()` at any point — including not at all — to mark the
/// start of the measured region; if it never does, its whole body is
/// measured, setup included.
pub trait Workload<P: Params, R: Reset> {
    /// Run the workload once for `params`.
    fn run(&mut self, params: &P, reset: &mut R)
        requires
            params.inv(),
            old(reset).resettable(),
        ensures
            final(reset).resettable(),
            old(reset).reset_ok(*final(reset)),
    ;
}

} // verus!
