use cairo_fuzzer::rustic::coverage::{Coverage, CoverageSet, Relocatable};
use cairo_fuzzer::rustic::crash::{Crash, CrashSet};
use cairo_fuzzer::rustic::error::Error;
use cairo_fuzzer::rustic::fuzzer::{handle_coverage_request, handle_new_crash};
use cairo_fuzzer::rustic::mutator_felt252::CairoMutator;
use cairo_fuzzer::rustic::starknet_runner::{convert_calldata, execution_result};
use cairo_fuzzer::rustic::stats::{sum_counters, Stats};
use cairo_fuzzer::rustic::types::Type;
use cairo_fuzzer::rustic::ui::{duration_parts, graph_points, Key, Navigation};
use cairo_fuzzer::rustic::worker::{init_inputs, WorkerEvent, WorkerState};

fn felt(v: u8) -> [u8; 32] {
    let mut b = [0u8; 32];
    b[31] = v;
    b
}

fn trace(points: &[(isize, usize, usize)]) -> Vec<(Relocatable, usize)> {
    points
        .iter()
        .map(|(s, o, n)| (Relocatable { segment_index: *s, offset: *o }, *n))
        .collect()
}

fn coverage(failure: bool, data: Vec<(Relocatable, usize)>) -> Coverage {
    Coverage { failure, inputs: vec![Type::U8(1)], data }
}

fn set_of(traces: Vec<Vec<(Relocatable, usize)>>) -> CoverageSet {
    let mut s = CoverageSet::new();
    for t in traces {
        s.insert(coverage(false, t));
    }
    s
}

fn traces_of(s: &CoverageSet) -> Vec<Vec<(Relocatable, usize)>> {
    let mut v: Vec<Vec<(Relocatable, usize)>> = s.items().iter().map(|c| c.data.clone()).collect();
    v.sort_by_key(|t| t.iter().map(|(r, n)| (r.segment_index, r.offset, *n)).collect::<Vec<_>>());
    v
}

#[test]
fn calldata_of_scalars_and_vectors() {
    let inputs = vec![
        Type::U8(5),
        Type::Bool(true),
        Type::Bool(false),
        Type::U128(u128::MAX),
        Type::Felt252(felt(9)),
        Type::Vector(Box::new(Type::U16(0)), vec![Type::U16(258), Type::U32(1)]),
    ];
    let out = convert_calldata(inputs);
    assert_eq!(out.len(), 7);
    assert_eq!(out[0], felt(5));
    assert_eq!(out[1], felt(1));
    assert_eq!(out[2], felt(0));
    let mut max = [0u8; 32];
    for i in 16..32 {
        max[i] = 0xff;
    }
    assert_eq!(out[3], max);
    assert_eq!(out[4], felt(9));
    let mut w = [0u8; 32];
    w[30] = 1;
    w[31] = 2;
    assert_eq!(out[5], w);
    assert_eq!(out[6], felt(1));
}

#[test]
fn initial_inputs_are_zero_or_true() {
    let params = vec![
        Type::Felt252(felt(7)),
        Type::U64(9),
        Type::Bool(false),
        Type::Vector(Box::new(Type::U8(0)), vec![Type::U8(3), Type::Bool(false)]),
    ];
    let init = init_inputs(&params);
    assert!(matches!(init[0], Type::Felt252(b) if b == [0u8; 32]));
    assert!(matches!(init[1], Type::U64(0)));
    assert!(matches!(init[2], Type::Bool(true)));
    match &init[3] {
        Type::Vector(_, v) => {
            assert!(matches!(v[0], Type::U8(0)));
            assert!(matches!(v[1], Type::Bool(true)));
        }
        _ => panic!("expected a vector"),
    }
}

#[test]
fn cairo_mutator_fixes_types_from_felts() {
    let mut m = CairoMutator::new(3, 4);
    assert_eq!(m.seed, 3);
    assert_eq!(m.max_input_size, 4);
    let typed = vec![Type::U8(0), Type::U16(0), Type::Felt252(felt(0))];
    m.load_inputs(&vec![Type::U8(1), Type::U16(2), Type::Felt252(felt(3))]);
    assert_eq!(m.input, vec![felt(1), felt(2), felt(3)]);
    let mut wide = [0u8; 32];
    wide[29] = 0x12;
    wide[30] = 0x34;
    wide[31] = 0x56;
    m.input[0] = wide;
    m.input[1] = wide;
    let fixed = m.fix_inputs_types(&typed);
    assert!(matches!(fixed[0], Type::U8(0x56)));
    assert!(matches!(fixed[1], Type::U16(0x3456)));
    assert!(matches!(fixed[2], Type::Felt252(b) if b == felt(3)));
}

#[test]
fn error_display_and_equality() {
    let e = Error::OutOfGas { message: "no gas".to_string() };
    assert_eq!(e.to_display_string(), "OutOfGas: no gas");
    assert_eq!(Error::Unknown { message: String::new() }.to_display_string(), "Unknown: ");
    assert!(e == Error::OutOfGas { message: "no gas".to_string() });
    assert!(e != Error::Abort { message: "no gas".to_string() });
    assert!(e != Error::OutOfGas { message: "other".to_string() });
}

#[test]
fn crashes_are_identified_by_error_and_target() {
    let e = Error::Abort { message: "boom".to_string() };
    let a = Crash::new("m", "f", &vec![Type::U8(1)], &e);
    let b = Crash::new("m", "f", &vec![Type::U8(2)], &e);
    let c = Crash::new("m", "g", &vec![Type::U8(1)], &e);
    assert!(a == b);
    assert!(a != c);
    let mut set = CrashSet::new();
    assert!(set.insert(a));
    assert!(!set.insert(b));
    assert!(set.contains(&c) == false);
    assert!(set.insert(c));
}

#[test]
fn coverage_sets_by_trace() {
    let t1 = trace(&[(0, 1, 2)]);
    let t2 = trace(&[(0, 1, 2), (1, 0, 5)]);
    let mut s = CoverageSet::new();
    assert!(s.insert(coverage(false, t1.clone())));
    assert!(!s.insert(coverage(true, t1.clone())));
    assert!(s.insert(coverage(false, t2.clone())));
    assert_eq!(s.len(), 2);
    let other = set_of(vec![t1.clone()]);
    let d = s.difference(&other);
    assert_eq!(traces_of(&d), vec![t2.clone()]);
    let mut e = CoverageSet::new();
    e.extend(&s);
    assert_eq!(traces_of(&e), traces_of(&s));
}

#[test]
fn worker_records_executions() {
    let mut w = WorkerState::new(CoverageSet::new(), 1, 2);
    let mut stats = Stats::new();
    let inputs = vec![Type::U8(4)];
    let r = w.record_execution(&mut stats, "m", "f", &inputs, Ok(None));
    assert!(r.is_none());
    assert_eq!(stats.execs, 1);
    let r = w.record_execution(&mut stats, "m", "f", &inputs, Ok(Some(coverage(false, trace(&[(0, 0, 1)])))));
    assert!(r.is_none());
    assert_eq!(w.coverage_set.len(), 1);
    let r = w.record_execution(&mut stats, "m", "f", &inputs, Ok(Some(coverage(true, trace(&[(0, 0, 2)])))));
    match r {
        Some(WorkerEvent::NewCrash(i, Error::Abort { message })) => {
            assert!(matches!(i[0], Type::U8(4)));
            assert_eq!(message, "Failure flag");
        }
        _ => panic!("expected a new crash"),
    }
    assert_eq!(stats.crashes, 1);
    let err = Error::Unknown { message: "bad".to_string() };
    let r = w.record_execution(&mut stats, "m", "f", &inputs, Err((coverage(false, vec![]), err)));
    assert!(matches!(r, Some(WorkerEvent::NewCrash(_, Error::Unknown { .. }))));
    assert_eq!(stats.crashes, 2);
    assert_eq!(stats.execs, 4);
    assert_eq!(w.coverage_set.len(), 3);
}

#[test]
fn worker_skips_known_unique_crashes() {
    let mut w = WorkerState::new(CoverageSet::new(), 1, 2);
    let known = Crash::new("m", "f", &vec![], &Error::Abort { message: "Failure flag".to_string() });
    w.handle_response(WorkerEvent::NewUniqueCrash(known));
    let mut stats = Stats::new();
    let r = w.record_execution(&mut stats, "m", "f", &vec![], Ok(Some(coverage(true, trace(&[(0, 0, 1)])))));
    assert!(r.is_none());
    assert_eq!(stats.crashes, 1);
}

#[test]
fn worker_asks_for_coverage_periodically() {
    let w = WorkerState::new(set_of(vec![trace(&[(0, 0, 1)])]), 1, 3);
    let mut stats = Stats::new();
    stats.execs = 3;
    match w.coverage_update_request(&stats) {
        Some(WorkerEvent::CoverageUpdateRequest(c)) => assert_eq!(c.len(), 1),
        _ => panic!("expected a request"),
    }
    stats.execs = 4;
    assert!(w.coverage_update_request(&stats).is_none());
}

#[test]
fn coverage_exchange_leaves_both_sides_with_the_union() {
    let a = trace(&[(0, 0, 1)]);
    let b = trace(&[(0, 0, 2)]);
    let c = trace(&[(0, 0, 3)]);
    let mut main = set_of(vec![a.clone(), b.clone()]);
    let mut worker = WorkerState::new(set_of(vec![b.clone(), c.clone()]), 1, 1);
    let mut stats = Stats::new();
    stats.secs_since_last_cov = 9;
    let request = worker.coverage_set.duplicate();
    let (response, added) = handle_coverage_request(&mut main, &mut stats, &request);
    assert_eq!(traces_of(&added), vec![c.clone()]);
    assert_eq!(stats.coverage_size, 1);
    assert_eq!(stats.secs_since_last_cov, 0);
    match response {
        Some(WorkerEvent::CoverageUpdateResponse(r)) => {
            assert_eq!(traces_of(&r), vec![a.clone()]);
            worker.handle_response(WorkerEvent::CoverageUpdateResponse(r));
        }
        _ => panic!("expected a response"),
    }
    assert_eq!(traces_of(&main), traces_of(&worker.coverage_set));
    assert_eq!(main.len(), 3);
    // a second exchange changes nothing
    let request = worker.coverage_set.duplicate();
    let (response, added) = handle_coverage_request(&mut main, &mut stats, &request);
    assert!(response.is_none());
    assert_eq!(added.len(), 0);
    assert_eq!(stats.coverage_size, 1);
}

#[test]
fn fuzzer_keeps_unique_crashes() {
    let mut set = CrashSet::new();
    let mut stats = Stats::new();
    let e = Error::Abort { message: "x".to_string() };
    let r = handle_new_crash(&mut set, &mut stats, "m", "f", &vec![Type::U8(1)], &e);
    assert!(r.is_some());
    assert_eq!(stats.unique_crashes, 1);
    let r = handle_new_crash(&mut set, &mut stats, "m", "f", &vec![Type::U8(2)], &e);
    assert!(r.is_none());
    assert_eq!(stats.unique_crashes, 1);
}

#[test]
fn stats_tick_and_sums() {
    let mut s = Stats::new();
    s.execs = 10;
    s.tick_second();
    assert_eq!(s.time_running, 1);
    assert_eq!(s.secs_since_last_cov, 1);
    assert_eq!(s.execs_per_sec, 10);
    s.execs = 25;
    s.tick_second();
    assert_eq!(s.execs_per_sec, 12);
    assert_eq!(sum_counters(&vec![1, 2, 3, 4]), 10);
    assert_eq!(sum_counters(&vec![]), 0);
}

#[test]
fn navigation_between_workers_and_tabs() {
    let mut n = Navigation::new(3);
    assert!(!n.handle_key(Key::Char('l')));
    assert_eq!(n.threads_stats_idx, 2);
    assert!(!n.handle_key(Key::Char('r')));
    assert_eq!(n.threads_stats_idx, 0);
    n.handle_key(Key::Char('r'));
    n.handle_key(Key::Char('r'));
    assert_eq!(n.threads_stats_idx, 2);
    n.handle_key(Key::Char('r'));
    assert_eq!(n.threads_stats_idx, 0);
    n.handle_key(Key::Left);
    assert_eq!(n.tab_index, 1);
    n.handle_key(Key::Left);
    assert_eq!(n.tab_index, 0);
    n.handle_key(Key::Right);
    assert_eq!(n.tab_index, 1);
    let before = n;
    assert!(!n.handle_key(Key::Other));
    assert!(!n.handle_key(Key::Char('x')));
    assert_eq!(n, before);
    assert!(n.handle_key(Key::Char('q')));
    assert_eq!(n, before);
}

#[test]
fn navigation_stays_in_range_for_any_key() {
    let keys = [Key::Char('l'), Key::Char('r'), Key::Left, Key::Right, Key::Char('q'), Key::Other];
    let mut n = Navigation::new(4);
    for i in 0..200 {
        n.handle_key(keys[(i * 7) % keys.len()]);
        assert!(n.threads_stats_idx < 4);
        assert!(n.tab_index < 2);
    }
}

#[test]
fn durations_and_graph_points() {
    assert_eq!(duration_parts(0), (0, 0, 0, 0));
    assert_eq!(duration_parts(90061), (1, 25, 1501, 90061));
    let mut s = Stats::new();
    assert_eq!(graph_points(&s), None);
    s.time_running = 4;
    s.coverage_size = 7;
    s.crashes = 9;
    assert_eq!(graph_points(&s), Some(((4, 7), (4, 2))));
}

#[test]
fn execution_results() {
    let ok = execution_result(vec![Type::U8(1)], Ok((true, trace(&[(1, 2, 3)]))));
    match ok {
        Ok(Some(c)) => {
            assert!(c.failure);
            assert_eq!(c.data, trace(&[(1, 2, 3)]));
        }
        _ => panic!("expected coverage"),
    }
    let err = execution_result(vec![], Err("out of gas".to_string()));
    match err {
        Err((c, Error::Unknown { message })) => {
            assert!(!c.failure);
            assert!(c.data.is_empty());
            assert_eq!(message, "out of gas");
        }
        _ => panic!("expected an error"),
    }
}

#[test]
fn worker_second_counts_the_execution_being_recorded() {
    let mut s = Stats::new();
    s.execs = 9;
    s.secs_since_last_cov = 4;
    s.tick_worker_second(2);
    assert_eq!(s.secs_since_last_cov, 5);
    assert_eq!(s.execs_per_sec, 5);
    assert_eq!(s.execs, 9);
}
