//! The bookkeeping of a replay: each corpus file is run once, its coverage
//! and crashes are recorded, errors are counted by their message, and the
//! worker's cases and completion are published.
use vstd::prelude::*;
use crate::cairo_fuzz::minimizer::ErrorCounts;
use crate::cairo_fuzz::stats::{consistent, inputs_view, share_input, FuzzInput, Statistics, StatsView, Trace};
use crate::cairo_fuzz::worker::{
    lemma_worker_steps_keep_consistency, record_coverage, share_list, spec_record_coverage,
};

verus! {

/// The local statistics after a replay refresh: when the shared input
/// counter differs from the local one, the local databases, input list and
/// counter and crash counter are replaced by the shared ones; the local
/// case and completion counters stay.
pub open spec fn spec_replay_refresh(local: StatsView, global: StatsView) -> StatsView {
    if local.input_len != global.input_len {
        StatsView { fuzz_cases: local.fuzz_cases, threads_finished: local.threads_finished, ..global }
    } else {
        local
    }
}

/// Local and shared statistics after input `x` crashed the program during
/// a replay: both crash counters grow by one, the input joins both input
/// sets and both crash sets, and an input new to the shared input set is
/// appended to the shared list.
pub open spec fn spec_replay_crash(local: StatsView, global: StatsView, x: Seq<u8>) -> (StatsView, StatsView) {
    let l = StatsView {
        crashes: local.crashes + 1,
        inputs: local.inputs.insert(x),
        crash_db: local.crash_db.insert(x),
        ..local
    };
    let known = global.inputs.contains(x);
    let g = StatsView {
        crashes: global.crashes + 1,
        inputs: global.inputs.insert(x),
        input_list: if known { global.input_list } else { global.input_list.push(x) },
        input_len: if known { global.input_len } else { global.input_len + 1 },
        crash_db: global.crash_db.insert(x),
        ..global
    };
    (l, g)
}

/// The shared statistics after a replayed case: one more fuzz case, and one
/// more finished worker after the worker's last file.
pub open spec fn spec_replay_finish(global: StatsView, last: bool) -> StatsView {
    StatsView {
        fuzz_cases: global.fuzz_cases + 1,
        threads_finished: if last { global.threads_finished + 1 } else { global.threads_finished },
        ..global
    }
}

/// Local and shared statistics after replaying input `x`: a run that went
/// through trace `t` refreshes the local statistics and records the trace;
/// a crash is recorded as a crash; the case is then counted.
pub open spec fn spec_replay_run(local: StatsView, global: StatsView, x: Seq<u8>, trace: Option<Seq<(u32, u32)>>, last: bool) -> (StatsView, StatsView) {
    match trace {
        Some(t) => {
            let (l, g, _) = spec_record_coverage(spec_replay_refresh(local, global), global, t, x);
            (l, spec_replay_finish(g, last))
        },
        None => {
            let (l, g) = spec_replay_crash(local, global, x);
            (l, spec_replay_finish(g, last))
        },
    }
}

/// The replay steps keep the statistics consistent.
proof fn lemma_replay_steps_keep_consistency(local: StatsView, global: StatsView, x: Seq<u8>, last: bool)
    requires
        consistent(local),
        consistent(global),
    ensures
        consistent(spec_replay_refresh(local, global)),
        consistent(spec_replay_crash(local, global, x).0),
        consistent(spec_replay_crash(local, global, x).1),
        consistent(spec_replay_finish(global, last)),
{
    let (l, g) = spec_replay_crash(local, global, x);
    assert forall|i: int| 0 <= i < g.input_list.len() implies g.inputs.contains(#[trigger] g.input_list[i]) by {
        if i < global.input_list.len() {
            assert(global.inputs.contains(global.input_list[i]));
        }
    }
    assert forall|u: Seq<(u32, u32)>| #[trigger] g.coverage.dom().contains(u) implies g.inputs.contains(g.coverage[u]) by {
        assert(global.inputs.contains(global.coverage[u]));
    }
    assert forall|u: Seq<(u32, u32)>| #[trigger] l.coverage.dom().contains(u) implies l.inputs.contains(l.coverage[u]) by {
        assert(local.inputs.contains(local.coverage[u]));
    }
    assert forall|y: Seq<u8>| #[trigger] g.crash_db.contains(y) implies g.inputs.contains(y) by {
        if y != x {
            assert(global.inputs.contains(y));
        }
    }
    assert forall|y: Seq<u8>| #[trigger] l.crash_db.contains(y) implies l.inputs.contains(y) by {
        if y != x {
            assert(local.inputs.contains(y));
        }
    }
}

/// Takes over the shared databases when the shared input counter differs
/// from the local one.
fn replay_refresh(local: &mut Statistics, global: &Statistics)
    requires
        old(local).wf(),
        global.wf(),
    ensures
        final(local).wf(),
        final(local)@ == spec_replay_refresh(old(local)@, global@),
{
    proof {
        lemma_replay_steps_keep_consistency(old(local)@, global@, Seq::empty(), false);
    }
    if local.input_len != global.input_len {
        local.coverage_db = global.coverage_db.duplicate();
        local.input_db = global.input_db.duplicate();
        local.input_list = share_list(&global.input_list);
        local.input_len = global.input_len;
        local.crashes = global.crashes;
        local.crash_db = global.crash_db.duplicate();
    }
}

/// Records one replayed corpus input: `outcome` is the trace of its run or
/// the message of the error it ended with; `last` tells whether it is the
/// worker's last file. Errors are counted by message in `errors`; returns
/// whether the error is met for the first time (and must be reported).
pub fn record_replay_run(
    local: &mut Statistics,
    global: &mut Statistics,
    input: &FuzzInput,
    outcome: &Result<Trace, String>,
    errors: &mut ErrorCounts,
    last: bool,
) -> (r: bool)
    requires
        old(local).wf(),
        old(global).wf(),
        old(errors).wf(),
        old(global).input_len < usize::MAX,
        old(local).crashes < u64::MAX,
        old(global).crashes < u64::MAX,
        old(global).fuzz_cases < u64::MAX,
        old(global).threads_finished < u64::MAX,
        outcome is Err && old(errors)@.dom().contains(outcome->Err_0@) ==> old(errors)@[outcome->Err_0@] < u64::MAX,
    ensures
        final(local).wf(),
        final(global).wf(),
        final(errors).wf(),
        (final(local)@, final(global)@) == spec_replay_run(
            old(local)@,
            old(global)@,
            input@,
            match outcome {
                Ok(t) => Some(t@),
                Err(_) => None,
            },
            last,
        ),
        match outcome {
            Ok(_) => !r && final(errors)@ == old(errors)@,
            Err(e) => r == !old(errors)@.dom().contains(e@) && final(errors)@ == old(errors)@.insert(
                e@,
                if r { 1u64 } else { (old(errors)@[e@] + 1) as u64 },
            ),
        },
{
    proof {
        lemma_replay_steps_keep_consistency(old(local)@, old(global)@, input@, last);
    }
    let first = match outcome {
        Ok(trace) => {
            replay_refresh(local, global);
            let mut corpus: Vec<Vec<u8>> = Vec::new();
            let _ = record_coverage(local, global, trace, input, &mut corpus);
            false
        },
        Err(message) => {
            local.crashes += 1;
            global.crashes += 1;
            local.input_db.insert(share_input(input));
            if global.input_db.insert(share_input(input)) {
                let ghost prev = global.input_list@;
                global.input_list.push(share_input(input));
                assert(inputs_view(global.input_list@) =~= inputs_view(prev).push(input@));
                global.input_len += 1;
            } else {
                assert(old(global).input_db@.insert(input@) =~= old(global).input_db@);
            }
            local.crash_db.insert(share_input(input));
            global.crash_db.insert(share_input(input));
            errors.record(message)
        },
    };
    proof {
        lemma_replay_steps_keep_consistency(global@, global@, input@, last);
    }
    global.fuzz_cases += 1;
    if last {
        global.threads_finished += 1;
    }
    first
}

} // verus!
