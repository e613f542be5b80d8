//! The decisions of the fuzzer that coordinates the workers: merging the
//! coverage workers send, keeping unique crashes.
use vstd::prelude::*;
use crate::rustic::coverage::{coverage_key, coverage_view, keep_new, keys_of, listing_view, Coverage, CoverageSet, Relocatable};
use crate::rustic::crash::{crash_key, Crash, CrashSet};
use crate::rustic::error::{error_parts, Error};
use crate::rustic::stats::Stats;
use crate::rustic::types::{types_view, Type};
use crate::rustic::worker::WorkerEvent;

verus! {

/// Answers a worker's coverage update request: returns the coverage the
/// fuzzer has and the worker lacks (as the response to send, when there is
/// some) and adds to the fuzzer's coverage what the worker has and the
/// fuzzer lacks (also returned, to be written to the corpus). Each added
/// trace counts in the coverage size and resets the time since the last
/// new coverage.
pub fn handle_coverage_request(
    coverage_set: &mut CoverageSet,
    stats: &mut Stats,
    worker_set: &CoverageSet,
) -> (r: (Option<WorkerEvent>, CoverageSet))
    requires
        old(coverage_set).wf(),
        worker_set.wf(),
        old(stats).coverage_size + worker_set@.len() <= u64::MAX,
    ensures
        final(coverage_set).wf(),
        final(coverage_set)@ == old(coverage_set)@.union(worker_set@),
        r.1@ == worker_set@.difference(old(coverage_set)@),
        r.1.entries() == keep_new(worker_set.entries(), old(coverage_set)@),
        final(coverage_set).entries() == old(coverage_set).entries() + r.1.entries(),
        r.0 matches Some(WorkerEvent::CoverageUpdateResponse(c)) ==> c.entries() == keep_new(old(coverage_set).entries(), worker_set@),
        old(coverage_set)@.difference(worker_set@).len() > 0 <==> r.0 is Some,
        r.0 matches Some(WorkerEvent::CoverageUpdateResponse(c)) ==> c@ == old(coverage_set)@.difference(worker_set@),
        r.0 matches Some(e) ==> e is CoverageUpdateResponse,
        final(stats).coverage_size == old(stats).coverage_size + r.1@.len(),
        final(coverage_set)@.len() == old(coverage_set)@.len() + r.1@.len(),
        final(stats).coverage_size - final(coverage_set)@.len() == old(stats).coverage_size - old(coverage_set)@.len(),
        final(stats).secs_since_last_cov == (if r.1@.len() > 0 { 0 } else { old(stats).secs_since_last_cov }),
        *final(stats) == (Stats {
            coverage_size: final(stats).coverage_size,
            secs_since_last_cov: final(stats).secs_since_last_cov,
            ..*old(stats)
        }),
{
    let differences_with_main_thread = coverage_set.difference(worker_set);
    let differences_with_worker = worker_set.difference(coverage_set);
    let response = if differences_with_main_thread.len() > 0 {
        Some(WorkerEvent::CoverageUpdateResponse(differences_with_main_thread))
    } else {
        None
    };
    let items = differences_with_worker.items();
    let ghost main0 = coverage_set@;
    let ghost entries0 = coverage_set.entries();
    assert(listing_view(items@.take(0)) =~= Seq::<(bool, Seq<crate::rustic::types::TypeV>, Seq<(Relocatable, usize)>)>::empty());
    assert(entries0 + listing_view(items@.take(0)) =~= entries0);
    let ghost ks = keys_of(items@);
    proof {
        worker_set.lemma_finite();
        vstd::set_lib::lemma_len_subset(differences_with_worker@, worker_set@);
        ks.unique_seq_to_set();
    }
    let mut i: usize = 0;
    while i < items.len()
        invariant
            coverage_set.wf(),
            i <= items.len(),
            ks == keys_of(items@),
            ks.no_duplicates(),
            ks.to_set() == worker_set@.difference(main0),
            ks.len() <= worker_set@.len(),
            coverage_set@ == main0.union(ks.take(i as int).to_set()),
            coverage_set.entries() == entries0 + listing_view(items@.take(i as int)),
            stats.coverage_size == old(stats).coverage_size + i,
            old(stats).coverage_size + worker_set@.len() <= u64::MAX,
            i > 0 ==> stats.secs_since_last_cov == 0,
            i == 0 ==> stats.secs_since_last_cov == old(stats).secs_since_last_cov,
            *stats == (Stats {
                coverage_size: stats.coverage_size,
                secs_since_last_cov: stats.secs_since_last_cov,
                ..*old(stats)
            }),
        decreases items.len() - i,
    {
        let c = &items[i];
        proof {
            assert(ks[i as int] == coverage_key(*c));
            assert(ks.to_set().contains(ks[i as int]));
            assert forall|j: int| 0 <= j < i implies ks.take(i as int)[j] != ks[i as int] by {
                assert(ks[j] != ks[i as int]);
            }
            assert(!ks.take(i as int).to_set().contains(ks[i as int]));
            assert(ks.take(i + 1) =~= ks.take(i as int).push(ks[i as int]));
            assert(ks.take(i + 1).to_set() =~= ks.take(i as int).to_set().insert(ks[i as int])) by {
                let s0 = ks.take(i as int);
                let s = ks.take(i + 1);
                assert forall|y| #[trigger] s.to_set().contains(y) <==> s0.to_set().insert(ks[i as int]).contains(y) by {
                    if s.contains(y) {
                        let j = choose|j: int| 0 <= j < s.len() && s[j] == y;
                        if j < s0.len() {
                            assert(s0[j] == y);
                        }
                    }
                    if s0.contains(y) {
                        let j = choose|j: int| 0 <= j < s0.len() && s0[j] == y;
                        assert(s[j] == y);
                    }
                    if y == ks[i as int] {
                        assert(s[i as int] == y);
                    }
                }
            }
        }
        let ghost before = coverage_set.entries();
        let inserted = coverage_set.insert(c.duplicate());
        assert(inserted);
        proof {
            assert(listing_view(items@.take(i + 1)) =~= listing_view(items@.take(i as int)).push(coverage_view(*c)));
            assert(coverage_set.entries() =~= before.push(coverage_view(*c)));
            assert(coverage_set.entries() =~= entries0 + listing_view(items@.take(i + 1)));
        }
        stats.secs_since_last_cov = 0;
        stats.coverage_size = stats.coverage_size + 1;
        i += 1;
    }
    proof {
        assert(ks.take(ks.len() as int) =~= ks);
        assert(items@.take(items@.len() as int) =~= items@);
        assert(main0.union(worker_set@.difference(main0)) =~= main0.union(worker_set@));
        old(coverage_set).lemma_finite();
        vstd::set_lib::lemma_set_disjoint_lens(main0, worker_set@.difference(main0));
        assert(main0 + worker_set@.difference(main0) == main0.union(worker_set@.difference(main0)));
    }
    (response, differences_with_worker)
}

/// Takes in a crash a worker reported: when its error and target are new,
/// it joins the unique crashes, counts as a unique crash and is returned
/// (to be written down and broadcast to the workers).
pub fn handle_new_crash(
    unique_crashes_set: &mut CrashSet,
    stats: &mut Stats,
    target_module: &str,
    target_function: &str,
    inputs: &Vec<Type>,
    error: &Error,
) -> (r: Option<Crash>)
    requires
        old(stats).unique_crashes < u64::MAX,
    ensures
        ({
            let key = (error_parts(*error), target_module@, target_function@);
            &&& old(unique_crashes_set)@.contains(key) <==> r is None
            &&& final(unique_crashes_set)@ == old(unique_crashes_set)@.insert(key)
            &&& final(stats).unique_crashes == old(stats).unique_crashes + (if r is Some { 1int } else { 0int })
            &&& r matches Some(c) ==> crash_key(c) == key && types_view(c.inputs@) == types_view(inputs@)
            &&& r is None ==> final(unique_crashes_set).listing() == old(unique_crashes_set).listing()
            &&& r is Some ==> final(unique_crashes_set).listing().drop_last() == old(unique_crashes_set).listing()
                && crash_key(final(unique_crashes_set).listing().last()) == key
                && types_view(final(unique_crashes_set).listing().last().inputs@) == types_view(inputs@)
        }),
        *final(stats) == (Stats { unique_crashes: final(stats).unique_crashes, ..*old(stats) }),
        final(unique_crashes_set)@.len() == old(unique_crashes_set)@.len() + (if r is Some { 1int } else { 0int }),
        final(stats).unique_crashes - final(unique_crashes_set)@.len() == old(stats).unique_crashes - old(unique_crashes_set)@.len(),
{
    proof {
        unique_crashes_set.lemma_finite();
    }
    let crash = Crash::new(target_module, target_function, inputs, error);
    if !unique_crashes_set.contains(&crash) {
        stats.unique_crashes += 1;
        let d = crash.duplicate();
        let ghost before = unique_crashes_set.listing();
        unique_crashes_set.insert(d);
        assert(unique_crashes_set.listing().drop_last() =~= before);
        Some(crash)
    } else {
        proof {
            assert(old(unique_crashes_set)@.insert(crash_key(crash)) =~= old(unique_crashes_set)@);
        }
        None
    }
}

/// After a coverage update request and its response, the worker and the
/// fuzzer hold the same traces: the union of what each held before.
pub proof fn lemma_coverage_exchange_converges(
    main: Set<Seq<(Relocatable, usize)>>,
    worker: Set<Seq<(Relocatable, usize)>>,
)
    ensures
        worker.union(main.difference(worker)) == main.union(worker),
{
    assert(worker.union(main.difference(worker)) =~= main.union(worker));
}

/// The fuzzer's coverage counter is the number of traces its coverage set
/// gained since it was loaded with `c0` traces, and its unique crash
/// counter the number of crashes its crash set gained since it was loaded
/// with `u0` crashes.
pub open spec fn counters_track(stats: Stats, coverage_len: int, crashes_len: int, c0: int, u0: int) -> bool {
    stats.coverage_size == coverage_len - c0 && stats.unique_crashes == crashes_len - u0
}

/// At every iteration of the fuzzer's loop the counters track the growth of
/// the sets: it holds of fresh counters and freshly loaded sets, and every
/// step that keeps each counter's difference to its set's size (a coverage
/// request, a new crash, a second's tick) keeps it.
pub proof fn lemma_fuzzer_counters_track_growth(
    c0: int,
    u0: int,
    before: Stats,
    after: Stats,
    coverage_before: int,
    coverage_after: int,
    crashes_before: int,
    crashes_after: int,
)
    requires
        counters_track(before, coverage_before, crashes_before, c0, u0),
        after.coverage_size - coverage_after == before.coverage_size - coverage_before,
        after.unique_crashes - crashes_after == before.unique_crashes - crashes_before,
    ensures
        counters_track(after, coverage_after, crashes_after, c0, u0),
        counters_track(
            Stats {
                execs: 0,
                crashes: 0,
                unique_crashes: 0,
                secs_since_last_cov: 0,
                execs_per_sec: 0,
                time_running: 0,
                coverage_size: 0,
            },
            c0,
            u0,
            c0,
            u0,
        ),
{
}

} // verus!
