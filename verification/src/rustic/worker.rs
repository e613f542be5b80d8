//! The decisions of a fuzzing worker: initial inputs, what an execution
//! adds to its coverage and crash sets, when to ask the fuzzer for coverage,
//! how to take in the fuzzer's answers and which input to mutate next.
use vstd::prelude::*;
use crate::rustic::coverage::{coverage_key, extend_entries, Coverage, CoverageSet};
use crate::rustic::crash::{crash_key, Crash, CrashSet};
use crate::rustic::error::{error_parts, Error};
use crate::rustic::rng::{spec_rand, Rng};
use crate::rustic::stats::Stats;
use crate::rustic::types::{type_view, types_view, Type, TypeV};

verus! {

/// Messages between a worker and the fuzzer.
pub enum WorkerEvent {
    NewCrash(Vec<Type>, Error),
    NewUniqueCrash(Crash),
    CoverageUpdateRequest(CoverageSet),
    CoverageUpdateResponse(CoverageSet),
}

/// The initial value of a parameter of type `t`: zero for felts and
/// integers, true for booleans, vectors with their elements initialized.
pub open spec fn spec_init(t: TypeV) -> TypeV
    decreases t, 1nat,
{
    match t {
        TypeV::Felt252(_) => TypeV::Felt252(Seq::new(32, |i: int| 0u8)),
        TypeV::U8(_) => TypeV::U8(0),
        TypeV::U16(_) => TypeV::U16(0),
        TypeV::U32(_) => TypeV::U32(0),
        TypeV::U64(_) => TypeV::U64(0),
        TypeV::U128(_) => TypeV::U128(0),
        TypeV::Bool(_) => TypeV::Bool(true),
        TypeV::Vector(e, v) => TypeV::Vector(e, spec_init_all(v)),
    }
}

/// The initial values of a list of parameters.
pub open spec fn spec_init_all(s: Seq<TypeV>) -> Seq<TypeV>
    decreases s, 0nat,
{
    if s.len() == 0 {
        Seq::empty()
    } else {
        spec_init_all(s.drop_last()).push(spec_init(s.last()))
    }
}

/// Builds the initial inputs of a function from the types of its parameters.
pub fn init_inputs(inputs: &Vec<Type>) -> (res: Vec<Type>)
    ensures
        types_view(res@) == spec_init_all(types_view(inputs@)),
    decreases inputs,
{
    let mut res: Vec<Type> = Vec::new();
    let mut i: usize = 0;
    while i < inputs.len()
        invariant
            i <= inputs.len(),
            types_view(res@) == spec_init_all(types_view(inputs@.take(i as int))),
        decreases inputs.len() - i,
    {
        proof {
            assert(decreases_to!(inputs => inputs@[i as int]));
            assert(inputs@.take(i + 1).drop_last() =~= inputs@.take(i as int));
        }
        let ghost before = res@;
        let v = match &inputs[i] {
            Type::Felt252(_) => Type::Felt252([0u8; 32]),
            Type::U8(_) => Type::U8(0x00),
            Type::U16(_) => Type::U16(0x00),
            Type::U32(_) => Type::U32(0x00),
            Type::U64(_) => Type::U64(0x00),
            Type::U128(_) => Type::U128(0x00),
            Type::Bool(_) => Type::Bool(true),
            Type::Vector(t, vec) => {
                proof {
                    assert(decreases_to!(inputs@[i as int] => *vec));
                }
                Type::Vector(Box::new((**t).duplicate()), init_inputs(vec))
            },
        };
        proof {
            let t = type_view(inputs@[i as int]);
            assert(type_view(v) == spec_init(t)) by {
                if t is Felt252 {
                    assert(v matches Type::Felt252(b) && b@ =~= Seq::new(32, |j: int| 0u8));
                }
            }
            let next = types_view(inputs@.take(i + 1));
            assert(next.drop_last() =~= types_view(inputs@.take(i as int)));
        }
        res.push(v);
        proof {
            assert(types_view(res@).drop_last() =~= types_view(before)) by {
                assert(res@.drop_last() =~= before);
            }
        }
        i += 1;
    }
    assert(inputs@.take(inputs.len() as int) =~= inputs@);
    res
}

/// The message text of the crash reported when an execution sets its
/// failure flag.
pub open spec fn failure_flag_message() -> Seq<char> {
    "Failure flag"@
}

/// The crash sets and coverage a worker keeps between executions.
pub struct WorkerState {
    pub coverage_set: CoverageSet,
    pub unique_crashes_set: CrashSet,
    pub rng: Rng,
    pub execs_before_cov_update: u64,
}

/// What the worker's sets and counters become after an execution, and
/// whether it reports a crash (with its error's parts).
pub open spec fn spec_record_execution(
    cov: Set<Seq<(crate::rustic::coverage::Relocatable, usize)>>,
    uniques: Set<((int, Seq<char>), Seq<char>, Seq<char>)>,
    stats: Stats,
    module: Seq<char>,
    function: Seq<char>,
    result: Result<Option<(bool, Seq<(crate::rustic::coverage::Relocatable, usize)>)>, (Seq<(crate::rustic::coverage::Relocatable, usize)>, (int, Seq<char>))>,
) -> (Set<Seq<(crate::rustic::coverage::Relocatable, usize)>>, Stats, Option<(int, Seq<char>)>) {
    let s1 = Stats { execs: (stats.execs + 1) as u64, ..stats };
    match result {
        Ok(None) => (cov, s1, None),
        Ok(Some((failure, key))) => {
            let s2 = if cov.contains(key) { s1 } else { Stats { secs_since_last_cov: 0, ..s1 } };
            if failure {
                let err = (0int, failure_flag_message());
                let report = if uniques.contains((err, module, function)) { None } else { Some(err) };
                (cov.insert(key), Stats { crashes: (s2.crashes + 1) as u64, ..s2 }, report)
            } else {
                (cov.insert(key), s2, None)
            }
        },
        Err((key, err)) => {
            let report = if uniques.contains((err, module, function)) { None } else { Some(err) };
            (cov.insert(key), Stats { secs_since_last_cov: 0, crashes: (s1.crashes + 1) as u64, ..s1 }, report)
        },
    }
}

/// Whether a worker whose execution count is `execs` asks the fuzzer for a
/// coverage update, with updates every `period` executions.
pub open spec fn requests_update(execs: u64, period: u64) -> bool {
    execs % period == 0
}

/// The plain parts of an execution result.
pub open spec fn result_view(result: Result<Option<Coverage>, (Coverage, Error)>) -> Result<Option<(bool, Seq<(crate::rustic::coverage::Relocatable, usize)>)>, (Seq<(crate::rustic::coverage::Relocatable, usize)>, (int, Seq<char>))> {
    match result {
        Ok(None) => Ok(None),
        Ok(Some(c)) => Ok(Some((c.failure, coverage_key(c)))),
        Err((c, e)) => Err((coverage_key(c), error_parts(e))),
    }
}

impl WorkerState {
    /// A worker state starting from the given coverage, with its generator
    /// seeded with `seed`.
    pub fn new(coverage_set: CoverageSet, seed: u64, execs_before_cov_update: u64) -> (r: Self)
        ensures
            r.coverage_set@ == coverage_set@,
            r.coverage_set.wf() == coverage_set.wf(),
            r.unique_crashes_set@ == Set::<((int, Seq<char>), Seq<char>, Seq<char>)>::empty(),
            r.rng.seed == seed,
            !r.rng.exp_disabled,
            r.execs_before_cov_update == execs_before_cov_update,
    {
        WorkerState {
            coverage_set,
            unique_crashes_set: CrashSet::new(),
            rng: Rng { seed, exp_disabled: false },
            execs_before_cov_update,
        }
    }

    /// Takes in the result of one execution on `inputs`: counts it, adds its
    /// coverage, counts a crash when the execution failed, and returns the
    /// crash to report to the fuzzer when its error and target are not among
    /// the unique crashes already known.
    pub fn record_execution(
        &mut self,
        stats: &mut Stats,
        target_module: &str,
        target_function: &str,
        inputs: &Vec<Type>,
        result: Result<Option<Coverage>, (Coverage, Error)>,
    ) -> (r: Option<WorkerEvent>)
        requires
            old(self).coverage_set.wf(),
            old(stats).execs < u64::MAX,
            old(stats).crashes < u64::MAX,
        ensures
            final(self).coverage_set.wf(),
            ({
                let (c, s, report) = spec_record_execution(
                    old(self).coverage_set@,
                    old(self).unique_crashes_set@,
                    *old(stats),
                    target_module@,
                    target_function@,
                    result_view(result),
                );
                &&& final(self).coverage_set@ == c
                &&& *final(stats) == s
                &&& match report {
                    None => r is None,
                    Some(e) => r matches Some(WorkerEvent::NewCrash(i, err))
                        && error_parts(err) == e && types_view(i@) == types_view(inputs@),
                }
            }),
            match result {
                Ok(Some(c)) => if old(self).coverage_set@.contains(coverage_key(c)) {
                    final(self).coverage_set.listing() == old(self).coverage_set.listing()
                } else {
                    final(self).coverage_set.listing() == old(self).coverage_set.listing().push(c)
                },
                Err((c, _)) => if old(self).coverage_set@.contains(coverage_key(c)) {
                    final(self).coverage_set.listing() == old(self).coverage_set.listing()
                } else {
                    final(self).coverage_set.listing() == old(self).coverage_set.listing().push(c)
                },
                Ok(None) => final(self).coverage_set.listing() == old(self).coverage_set.listing(),
            },
            final(self).unique_crashes_set@ == old(self).unique_crashes_set@,
            final(self).rng == old(self).rng,
            final(self).execs_before_cov_update == old(self).execs_before_cov_update,
    {
        stats.execs += 1;
        match result {
            Ok(Some(coverage)) => {
                let failure = coverage.failure;
                if !self.coverage_set.contains(&coverage) {
                    self.coverage_set.insert(coverage);
                    stats.secs_since_last_cov = 0;
                } else {
                    proof {
                        assert(old(self).coverage_set@.insert(coverage_key(coverage)) =~= old(self).coverage_set@);
                    }
                }
                if failure {
                    let error = Error::Abort { message: String::from_str("Failure flag") };
                    let crash = Crash::new(target_module, target_function, inputs, &error);
                    let report = if !self.unique_crashes_set.contains(&crash) {
                        Some(WorkerEvent::NewCrash(crate::rustic::types::duplicate_types(inputs), error))
                    } else {
                        None
                    };
                    stats.crashes += 1;
                    report
                } else {
                    None
                }
            },
            Ok(None) => None,
            Err((coverage, error)) => {
                if !self.coverage_set.contains(&coverage) {
                    self.coverage_set.insert(coverage);
                } else {
                    proof {
                        assert(old(self).coverage_set@.insert(coverage_key(coverage)) =~= old(self).coverage_set@);
                    }
                }
                stats.secs_since_last_cov = 0;
                let crash = Crash::new(target_module, target_function, inputs, &error);
                let report = if !self.unique_crashes_set.contains(&crash) {
                    Some(WorkerEvent::NewCrash(crate::rustic::types::duplicate_types(inputs), error))
                } else {
                    None
                };
                stats.crashes += 1;
                report
            },
        }
    }

    /// Asks the fuzzer for its coverage every `execs_before_cov_update`
    /// executions, sending a copy of the worker's own coverage.
    pub fn coverage_update_request(&self, stats: &Stats) -> (r: Option<WorkerEvent>)
        requires
            self.execs_before_cov_update > 0,
            self.coverage_set.wf(),
        ensures
            requests_update(stats.execs, self.execs_before_cov_update) <==> r is Some,
            r matches Some(WorkerEvent::CoverageUpdateRequest(c)) ==> c@ == self.coverage_set@
                && c.entries() == self.coverage_set.entries(),
            r matches Some(e) ==> e is CoverageUpdateRequest,
    {
        if stats.execs % self.execs_before_cov_update == 0 {
            Some(WorkerEvent::CoverageUpdateRequest(self.coverage_set.duplicate()))
        } else {
            None
        }
    }

    /// Takes in a message of the fuzzer: coverage found elsewhere joins the
    /// worker's coverage, a unique crash joins its unique crashes.
    pub fn handle_response(&mut self, response: WorkerEvent)
        requires
            old(self).coverage_set.wf(),
            response is CoverageUpdateResponse || response is NewUniqueCrash,
        ensures
            final(self).coverage_set.wf(),
            response matches WorkerEvent::CoverageUpdateResponse(c) ==> final(self).coverage_set@ == old(self).coverage_set@.union(c@)
                && final(self).coverage_set.entries() == extend_entries(old(self).coverage_set.entries(), c.entries())
                && final(self).unique_crashes_set@ == old(self).unique_crashes_set@,
            response matches WorkerEvent::NewUniqueCrash(c) ==> final(self).unique_crashes_set@ == old(self).unique_crashes_set@.insert(crash_key(c))
                && final(self).coverage_set@ == old(self).coverage_set@,
            final(self).rng == old(self).rng,
            final(self).execs_before_cov_update == old(self).execs_before_cov_update,
    {
        match response {
            WorkerEvent::CoverageUpdateResponse(coverage_set) => self.coverage_set.extend(&coverage_set),
            WorkerEvent::NewUniqueCrash(crash) => {
                let _ = self.unique_crashes_set.insert(crash);
            },
            _ => {},
        }
    }

    /// Picks the position, in the coverage set's listing, of the coverage
    /// whose inputs are mutated next.
    pub fn pick_input_index(&mut self) -> (r: usize)
        requires
            old(self).coverage_set.wf(),
            old(self).coverage_set@.len() > 0,
        ensures
            r < old(self).coverage_set@.len(),
            (r, final(self).rng.seed) == spec_rand(old(self).rng.seed, 0, (old(self).coverage_set@.len() - 1) as usize),
            final(self).rng.exp_disabled == old(self).rng.exp_disabled,
            final(self).coverage_set == old(self).coverage_set,
            final(self).unique_crashes_set == old(self).unique_crashes_set,
            final(self).execs_before_cov_update == old(self).execs_before_cov_update,
    {
        let n = self.coverage_set.len();
        self.rng.rand(0, n - 1)
    }
}

/// Recording an execution never loses coverage: the worker's coverage after
/// it holds everything it held before.
pub proof fn lemma_record_execution_keeps_coverage(
    cov: Set<Seq<(crate::rustic::coverage::Relocatable, usize)>>,
    uniques: Set<((int, Seq<char>), Seq<char>, Seq<char>)>,
    stats: Stats,
    module: Seq<char>,
    function: Seq<char>,
    result: Result<Option<(bool, Seq<(crate::rustic::coverage::Relocatable, usize)>)>, (Seq<(crate::rustic::coverage::Relocatable, usize)>, (int, Seq<char>))>,
)
    ensures
        cov.subset_of(spec_record_execution(cov, uniques, stats, module, function, result).0),
{
}

/// A crash whose error and target are already among the unique crashes is
/// never reported again, and every execution is counted.
pub proof fn lemma_known_crash_not_reported(
    cov: Set<Seq<(crate::rustic::coverage::Relocatable, usize)>>,
    uniques: Set<((int, Seq<char>), Seq<char>, Seq<char>)>,
    stats: Stats,
    module: Seq<char>,
    function: Seq<char>,
    result: Result<Option<(bool, Seq<(crate::rustic::coverage::Relocatable, usize)>)>, (Seq<(crate::rustic::coverage::Relocatable, usize)>, (int, Seq<char>))>,
)
    requires
        stats.execs < u64::MAX,
    ensures
        ({
            let (c, s, report) = spec_record_execution(cov, uniques, stats, module, function, result);
            &&& report matches Some(e) ==> !uniques.contains((e, module, function))
            &&& s.execs == stats.execs + 1
        }),
{
}

/// The plain parts of one execution result, as `result_view` gives them.
pub type ExecOutcome = Result<Option<(bool, Seq<(crate::rustic::coverage::Relocatable, usize)>)>, (Seq<(crate::rustic::coverage::Relocatable, usize)>, (int, Seq<char>))>;

/// Whether an execution result counts as a crash: a run that reported a
/// failure, or one that ended in an error.
pub open spec fn is_crash_outcome(o: ExecOutcome) -> bool {
    match o {
        Ok(Some((failure, _))) => failure,
        Ok(None) => false,
        Err(_) => true,
    }
}

/// The number of results of a run that count as crashes.
pub open spec fn crash_count(results: Seq<ExecOutcome>) -> nat
    decreases results.len(),
{
    if results.len() == 0 {
        0
    } else {
        crash_count(results.drop_last()) + (if is_crash_outcome(results.last()) { 1nat } else { 0nat })
    }
}

/// The worker's coverage and counters after recording a run of execution
/// results, one after the other.
pub open spec fn spec_record_run(
    cov: Set<Seq<(crate::rustic::coverage::Relocatable, usize)>>,
    uniques: Set<((int, Seq<char>), Seq<char>, Seq<char>)>,
    stats: Stats,
    module: Seq<char>,
    function: Seq<char>,
    results: Seq<ExecOutcome>,
) -> (Set<Seq<(crate::rustic::coverage::Relocatable, usize)>>, Stats)
    decreases results.len(),
{
    if results.len() == 0 {
        (cov, stats)
    } else {
        let (c, s) = spec_record_run(cov, uniques, stats, module, function, results.drop_last());
        let (c2, s2, _) = spec_record_execution(c, uniques, s, module, function, results.last());
        (c2, s2)
    }
}

/// Over any run of executions, each one is counted exactly once, exactly the
/// failing ones count as crashes, and the worker's coverage never shrinks.
pub proof fn lemma_run_counts_every_execution(
    cov: Set<Seq<(crate::rustic::coverage::Relocatable, usize)>>,
    uniques: Set<((int, Seq<char>), Seq<char>, Seq<char>)>,
    stats: Stats,
    module: Seq<char>,
    function: Seq<char>,
    results: Seq<ExecOutcome>,
)
    requires
        stats.execs + results.len() <= u64::MAX,
        stats.crashes + results.len() <= u64::MAX,
    ensures
        ({
            let (c, s) = spec_record_run(cov, uniques, stats, module, function, results);
            &&& s.execs == stats.execs + results.len()
            &&& s.crashes == stats.crashes + crash_count(results)
            &&& cov.subset_of(c)
        }),
    decreases results.len(),
{
    if results.len() > 0 {
        lemma_run_counts_every_execution(cov, uniques, stats, module, function, results.drop_last());
        let (c, s) = spec_record_run(cov, uniques, stats, module, function, results.drop_last());
        lemma_crash_count_bound(results.drop_last());
        lemma_record_execution_keeps_coverage(c, uniques, s, module, function, results.last());
    }
}

/// A run has no more crashes than results.
proof fn lemma_crash_count_bound(results: Seq<ExecOutcome>)
    ensures
        crash_count(results) <= results.len(),
    decreases results.len(),
{
    if results.len() > 0 {
        lemma_crash_count_bound(results.drop_last());
    }
}

/// One iteration of a worker: the execution is counted once, it counts as
/// a crash exactly when it failed, the coverage only grows, and the
/// coverage update request goes out exactly when the new execution count is
/// a multiple of the period.
pub proof fn lemma_worker_iteration(
    cov: Set<Seq<(crate::rustic::coverage::Relocatable, usize)>>,
    uniques: Set<((int, Seq<char>), Seq<char>, Seq<char>)>,
    stats: Stats,
    module: Seq<char>,
    function: Seq<char>,
    outcome: ExecOutcome,
    period: u64,
)
    requires
        stats.execs < u64::MAX,
        stats.crashes < u64::MAX,
        period > 0,
    ensures
        ({
            let (c, s, _) = spec_record_execution(cov, uniques, stats, module, function, outcome);
            &&& s.execs == stats.execs + 1
            &&& s.crashes == stats.crashes + (if is_crash_outcome(outcome) { 1int } else { 0int })
            &&& cov.subset_of(c)
            &&& requests_update(s.execs, period) <==> (stats.execs + 1) % (period as int) == 0
        }),
{
    lemma_record_execution_keeps_coverage(cov, uniques, stats, module, function, outcome);
}

} // verus!
