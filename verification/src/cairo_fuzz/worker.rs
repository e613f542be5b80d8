//! The decisions a fuzzing worker takes after each run of the program under
//! test: which statistics to refresh, which inputs and crashes to keep, and
//! when to publish its case counter.
use vstd::prelude::*;
use crate::cairo_fuzz::rng::Rng;
use crate::xorshift::xorshift64;
use crate::cairo_fuzz::stats::{
    consistent, copy_trace, inputs_view, share_input, FuzzInput, Statistics, StatsView, Trace,
};

verus! {

/// How often, in fuzz cases, a worker adds its count to the shared counter.
pub const COUNTER_UPDATE: u64 = 1000;

/// The local statistics after a refresh: when the shared input set does not
/// have as many inputs as the local one, the local databases and crash
/// counter are replaced by the shared ones; the local case counter stays.
pub open spec fn spec_refresh(local: StatsView, global: StatsView) -> StatsView {
    if local.inputs.len() != global.inputs.len() {
        StatsView { fuzz_cases: local.fuzz_cases, threads_finished: local.threads_finished, ..global }
    } else {
        local
    }
}

/// Local statistics, shared statistics and whether the input must be added
/// to the input corpus, after a run of input `x` produced trace `t`: a trace
/// the worker has not seen is recorded locally; if the shared database has
/// not seen it either, it is recorded there too, and an input new to the
/// shared input set is appended to the shared list and to the corpus.
pub open spec fn spec_record_coverage(
    local: StatsView,
    global: StatsView,
    t: Seq<(u32, u32)>,
    x: Seq<u8>,
) -> (StatsView, StatsView, bool) {
    if local.coverage.dom().contains(t) {
        (local, global, false)
    } else {
        let l = StatsView { inputs: local.inputs.insert(x), coverage: local.coverage.insert(t, x), ..local };
        if global.coverage.dom().contains(t) {
            (l, global, false)
        } else if global.inputs.contains(x) {
            (l, StatsView { coverage: global.coverage.insert(t, x), ..global }, false)
        } else {
            (
                l,
                StatsView {
                    inputs: global.inputs.insert(x),
                    input_list: global.input_list.push(x),
                    input_len: global.input_len + 1,
                    coverage: global.coverage.insert(t, x),
                    ..global
                },
                true,
            )
        }
    }
}

/// Local statistics, shared statistics and whether the input must be added
/// to the crash corpus, after input `x` crashed the program: both crash
/// counters grow by one, the input joins both input sets (the shared input
/// list is extended when the input was already known), and it joins both
/// crash sets; it goes to the corpus when the shared crash set was missing it.
pub open spec fn spec_record_crash(local: StatsView, global: StatsView, x: Seq<u8>) -> (StatsView, StatsView, bool) {
    let l = StatsView {
        crashes: local.crashes + 1,
        inputs: local.inputs.insert(x),
        crash_db: local.crash_db.insert(x),
        ..local
    };
    let known = global.inputs.contains(x);
    let g = StatsView {
        crashes: global.crashes + 1,
        inputs: global.inputs.insert(x),
        input_list: if known { global.input_list.push(x) } else { global.input_list },
        input_len: if known { global.input_len + 1 } else { global.input_len },
        crash_db: global.crash_db.insert(x),
        ..global
    };
    (l, g, !global.crash_db.contains(x))
}

/// The case counters after one fuzz case: the worker publishes
/// `COUNTER_UPDATE` cases to the shared counter whenever its own counter is
/// one more than a multiple of `COUNTER_UPDATE`, then counts the case.
pub open spec fn spec_count_case(local: StatsView, global: StatsView) -> (StatsView, StatsView) {
    let g = if local.fuzz_cases % (COUNTER_UPDATE as nat) == 1 {
        StatsView { fuzz_cases: global.fuzz_cases + (COUNTER_UPDATE as nat), ..global }
    } else {
        global
    };
    (StatsView { fuzz_cases: local.fuzz_cases + 1, ..local }, g)
}

/// The contents of a list of byte vectors.
pub open spec fn bytes_list(s: Seq<Vec<u8>>) -> Seq<Seq<u8>> {
    s.map_values(|v: Vec<u8>| v@)
}

/// A copy of a list of shared inputs.
pub(crate) fn share_list(list: &Vec<FuzzInput>) -> (r: Vec<FuzzInput>)
    ensures
        inputs_view(r@) == inputs_view(list@),
{
    let mut r: Vec<FuzzInput> = Vec::new();
    let mut i: usize = 0;
    while i < list.len()
        invariant
            i <= list.len(),
            inputs_view(r@) == inputs_view(list@).subrange(0, i as int),
        decreases list.len() - i,
    {
        let ghost prev = r@;
        r.push(share_input(&list[i]));
        assert(inputs_view(r@) =~= inputs_view(prev).push(list@[i as int]@));
        assert(inputs_view(list@).subrange(0, i + 1) =~= inputs_view(list@).subrange(0, i as int).push(list@[i as int]@));
        i += 1;
    }
    assert(inputs_view(list@).subrange(0, list.len() as int) =~= inputs_view(list@));
    r
}

/// Verify if new inputs have been found by other workers; if so, take over
/// the shared databases.
pub fn refresh_local(local: &mut Statistics, global: &Statistics)
    requires
        old(local).wf(),
        global.wf(),
    ensures
        final(local).wf(),
        final(local)@ == spec_refresh(old(local)@, global@),
{
    if local.input_db.len() != global.input_db.len() {
        local.coverage_db = global.coverage_db.duplicate();
        local.input_list = share_list(&global.input_list);
        local.input_len = global.input_len;
        local.input_db = global.input_db.duplicate();
        local.crash_db = global.crash_db.duplicate();
        local.crashes = global.crashes;
    }
    proof {
        lemma_worker_steps_keep_consistency(old(local)@, global@, Seq::empty(), Seq::empty());
    }
}

/// Records the trace produced by a run; returns whether the input is new to
/// the shared input set and was added to `corpus`.
pub fn record_coverage(
    local: &mut Statistics,
    global: &mut Statistics,
    trace: &Trace,
    input: &FuzzInput,
    corpus: &mut Vec<Vec<u8>>,
) -> (r: bool)
    requires
        old(local).wf(),
        old(global).wf(),
        old(global).input_len < usize::MAX,
    ensures
        final(local).wf(),
        final(global).wf(),
        (final(local)@, final(global)@, r) == spec_record_coverage(old(local)@, old(global)@, trace@, input@),
        r ==> bytes_list(final(corpus)@) == bytes_list(old(corpus)@).push(input@),
        !r ==> bytes_list(final(corpus)@) == bytes_list(old(corpus)@),
{
    proof {
        lemma_worker_steps_keep_consistency(old(local)@, old(global)@, trace@, input@);
    }
    if local.coverage_db.contains_key(trace) {
        return false;
    }
    local.input_db.insert(share_input(input));
    local.coverage_db.insert(copy_trace(trace), share_input(input));
    if global.coverage_db.contains_key(trace) {
        return false;
    }
    let mut recorded = false;
    if global.input_db.insert(share_input(input)) {
        let bytes: Vec<u8> = (**input).clone();
        proof {
            assert(bytes@ =~= input@);
        }
        let ghost pc = corpus@;
        corpus.push(bytes);
        assert(bytes_list(corpus@) =~= bytes_list(pc).push(input@));
        let ghost prev = global.input_list@;
        global.input_list.push(share_input(input));
        assert(inputs_view(global.input_list@) =~= inputs_view(prev).push(input@));
        global.input_len += 1;
        recorded = true;
    }
    global.coverage_db.insert(copy_trace(trace), share_input(input));
    proof {
        if !recorded {
            assert(old(global).input_db@.insert(input@) =~= old(global).input_db@);
        }
    }
    recorded
}

/// Records a crashing input; returns whether the crash is new to the shared
/// crash set and was added to `crash_corpus`.
pub fn record_crash(
    local: &mut Statistics,
    global: &mut Statistics,
    input: &FuzzInput,
    crash_corpus: &mut Vec<Vec<u8>>,
) -> (r: bool)
    requires
        old(local).wf(),
        old(global).wf(),
        old(local).crashes < u64::MAX,
        old(global).crashes < u64::MAX,
        old(global).input_len < usize::MAX,
    ensures
        final(local).wf(),
        final(global).wf(),
        (final(local)@, final(global)@, r) == spec_record_crash(old(local)@, old(global)@, input@),
        r == !old(global).crash_db@.contains(input@),
        final(global).crash_db@.contains(input@),
        r ==> bytes_list(final(crash_corpus)@) == bytes_list(old(crash_corpus)@).push(input@),
        !r ==> bytes_list(final(crash_corpus)@) == bytes_list(old(crash_corpus)@),
{
    proof {
        lemma_worker_steps_keep_consistency(old(local)@, old(global)@, Seq::empty(), input@);
    }
    local.crashes += 1;
    global.crashes += 1;
    local.input_db.insert(share_input(input));
    if !global.input_db.insert(share_input(input)) {
        let ghost prev = global.input_list@;
        global.input_list.push(share_input(input));
        assert(inputs_view(global.input_list@) =~= inputs_view(prev).push(input@));
        global.input_len += 1;
    }
    local.crash_db.insert(share_input(input));
    if global.crash_db.insert(share_input(input)) {
        let bytes: Vec<u8> = (**input).clone();
        proof {
            assert(bytes@ =~= input@);
        }
        let ghost pc = crash_corpus@;
        crash_corpus.push(bytes);
        assert(bytes_list(crash_corpus@) =~= bytes_list(pc).push(input@));
        return true;
    }
    false
}

/// Counts one fuzz case, publishing `COUNTER_UPDATE` cases to the shared
/// counter every `COUNTER_UPDATE` cases.
pub fn count_case(local: &mut Statistics, global: &mut Statistics)
    requires
        old(local).wf(),
        old(global).wf(),
        old(local).fuzz_cases < u64::MAX,
        old(global).fuzz_cases <= u64::MAX - COUNTER_UPDATE,
    ensures
        final(local).wf(),
        final(global).wf(),
        (final(local)@, final(global)@) == spec_count_case(old(local)@, old(global)@),
{
    proof {
        lemma_worker_steps_keep_consistency(old(local)@, old(global)@, Seq::empty(), Seq::empty());
    }
    if local.fuzz_cases % COUNTER_UPDATE == 1 {
        global.fuzz_cases += COUNTER_UPDATE;
    }
    local.fuzz_cases += 1;
}

/// Every decision of a worker keeps the statistics consistent: refreshing,
/// recording coverage, recording a crash and counting a case map consistent
/// local and shared statistics to consistent ones.
pub proof fn lemma_worker_steps_keep_consistency(
    local: StatsView,
    global: StatsView,
    t: Seq<(u32, u32)>,
    x: Seq<u8>,
)
    requires
        consistent(local),
        consistent(global),
    ensures
        consistent(spec_refresh(local, global)),
        consistent(spec_record_coverage(local, global, t, x).0),
        consistent(spec_record_coverage(local, global, t, x).1),
        consistent(spec_record_crash(local, global, x).0),
        consistent(spec_record_crash(local, global, x).1),
        consistent(spec_count_case(local, global).0),
        consistent(spec_count_case(local, global).1),
{
    let (l, g, _) = spec_record_coverage(local, global, t, x);
    if !local.coverage.dom().contains(t) {
        assert forall|u: Seq<(u32, u32)>| #[trigger] l.coverage.dom().contains(u) implies l.inputs.contains(l.coverage[u]) by {
            if u != t {
                assert(local.coverage.dom().contains(u));
            }
        }
        if !global.coverage.dom().contains(t) {
            assert forall|u: Seq<(u32, u32)>| #[trigger] g.coverage.dom().contains(u) implies g.inputs.contains(g.coverage[u]) by {
                if u != t {
                    assert(global.coverage.dom().contains(u));
                }
            }
            assert forall|i: int| 0 <= i < g.input_list.len() implies g.inputs.contains(#[trigger] g.input_list[i]) by {
                if i < global.input_list.len() {
                    assert(global.inputs.contains(global.input_list[i]));
                }
            }
            assert forall|y: Seq<u8>| #[trigger] g.crash_db.contains(y) implies g.inputs.contains(y) by {
                assert(global.inputs.contains(y));
            }
        }
    }
    let (l2, g2, _) = spec_record_crash(local, global, x);
    assert forall|i: int| 0 <= i < g2.input_list.len() implies g2.inputs.contains(#[trigger] g2.input_list[i]) by {
        if i < global.input_list.len() {
            assert(global.inputs.contains(global.input_list[i]));
        }
    }
    assert forall|u: Seq<(u32, u32)>| #[trigger] g2.coverage.dom().contains(u) implies g2.inputs.contains(g2.coverage[u]) by {
        assert(global.inputs.contains(global.coverage[u]));
    }
    assert forall|u: Seq<(u32, u32)>| #[trigger] l2.coverage.dom().contains(u) implies l2.inputs.contains(l2.coverage[u]) by {
        assert(local.inputs.contains(local.coverage[u]));
    }
    assert forall|y: Seq<u8>| #[trigger] g2.crash_db.contains(y) implies g2.inputs.contains(y) by {
        if y != x {
            assert(global.inputs.contains(y));
        }
    }
    assert forall|y: Seq<u8>| #[trigger] l2.crash_db.contains(y) implies l2.inputs.contains(y) by {
        if y != x {
            assert(local.inputs.contains(y));
        }
    }
}

/// The position in the input list of the next input a worker mutates: a
/// draw of the generator reduced modulo the number of inputs, or the first
/// position, without a draw, while there is no input.
pub fn next_input_index(rng: &mut Rng, input_len: usize) -> (r: usize)
    ensures
        input_len == 0 ==> r == 0 && final(rng)@ == old(rng)@,
        input_len > 0 ==> final(rng)@ == xorshift64(old(rng)@) && r == (xorshift64(old(rng)@) as usize) % input_len
            && r < input_len,
{
    if input_len > 0 {
        rng.rand() % input_len
    } else {
        0
    }
}

/// The trace of a run from the (fp, pc) offsets the Cairo VM went through:
/// `None` when an offset does not fit in `u32`.
pub fn trace_of(offsets: &Vec<(usize, usize)>) -> (r: Option<Trace>)
    ensures
        match r {
            None => exists|i: int| 0 <= i < offsets.len() && (#[trigger] offsets@[i].0 > u32::MAX || offsets@[i].1 > u32::MAX),
            Some(t) => t@.len() == offsets.len() && forall|i: int| 0 <= i < offsets.len() ==>
                (#[trigger] t@[i]).0 == offsets@[i].0 && t@[i].1 == offsets@[i].1,
        },
{
    let mut t: Trace = Vec::new();
    let mut i: usize = 0;
    while i < offsets.len()
        invariant
            i <= offsets.len(),
            t@.len() == i,
            forall|j: int| 0 <= j < i ==> (#[trigger] t@[j]).0 == offsets@[j].0 && t@[j].1 == offsets@[j].1,
        decreases offsets.len() - i,
    {
        let (fp, pc) = offsets[i];
        if fp > u32::MAX as usize || pc > u32::MAX as usize {
            assert(offsets@[i as int].0 > u32::MAX || offsets@[i as int].1 > u32::MAX);
            return None;
        }
        t.push((fp as u32, pc as u32));
        i += 1;
    }
    Some(t)
}

/// A crashing input goes to the crash corpus exactly when the shared crash
/// set did not hold it yet, whatever the worker's own crash set holds; after
/// the crash both crash sets hold it, so a second crash on the same input,
/// from this worker or another, adds nothing to the corpus.
pub proof fn lemma_crash_corpus_decision(local: StatsView, global: StatsView, other: StatsView, x: Seq<u8>)
    ensures
        spec_record_crash(local, global, x).2 == !global.crash_db.contains(x),
        spec_record_crash(local, global, x).0.crash_db.contains(x),
        spec_record_crash(local, global, x).1.crash_db.contains(x),
        !spec_record_crash(other, spec_record_crash(local, global, x).1, x).2,
{
}

} // verus!
