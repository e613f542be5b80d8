use std::sync::Arc;

use cairo_fuzzer::cairo_fuzz::cairo_types::{Bit, B0, B1, UTerm};
use cairo_fuzzer::cairo_fuzz::corpus::{CrashFile, InputFile};
use cairo_fuzzer::cairo_fuzz::fuzzer::{
    choose_replay_corpus, crashes_corpus_path, inputs_corpus_path, load_corpus_inputs, split_corpus,
};
use cairo_fuzzer::cairo_fuzz::json_parser::Function;
use cairo_fuzzer::cairo_fuzz::minimizer::{ErrorCounts, MinimizerStats};
use cairo_fuzzer::cairo_fuzz::replay::record_replay_run;
use cairo_fuzzer::cairo_fuzz::stats::Statistics;
use cairo_fuzzer::cairo_fuzz::corpus::read_member_rows;
use cairo_fuzzer::cairo_fuzz::worker::{count_case, record_coverage, record_crash, refresh_local, trace_of};
use cairo_fuzzer::json::{Json, JsonValue};

fn n(v: u64) -> Json {
    Json { value: JsonValue::Number(Some(v)), text: v.to_string() }
}

fn s(v: &str) -> Json {
    Json { value: JsonValue::Str(v.to_string()), text: format!("\"{}\"", v) }
}

fn arr(items: Vec<Json>) -> Json {
    Json { value: JsonValue::Array(items), text: String::from("[...]") }
}

fn obj(fields: Vec<(&str, Json)>) -> Json {
    Json {
        value: JsonValue::Object(fields.into_iter().map(|(k, v)| (k.to_string(), v)).collect()),
        text: String::from("{...}"),
    }
}

fn function() -> Function {
    Function { name: "main".to_string(), num_args: 2, type_args: vec!["felt".to_string(), "felt*".to_string()] }
}

#[test]
fn type_level_bits_and_integers() {
    assert_eq!(<B0 as Bit>::to_u8(), 0);
    assert_eq!(<B1 as Bit>::to_u8(), 1);
    assert!(!<B0 as Bit>::to_bool());
    assert!(<B1 as Bit>::to_bool());
    let _ = B0::new();
    let _ = B1::new();
    let _ = UTerm::new();
}

#[test]
fn corpus_file_names() {
    let f = function();
    let i = InputFile::new_from_function_at(&f, &"ws".to_string(), "2024-01-02--03:04:05");
    assert_eq!(i.path, "main_2024-01-02--03:04:05.json");
    assert_eq!(i.workspace, "ws");
    assert_eq!(i.name, "main");
    assert_eq!(i.args, f.type_args);
    assert!(i.inputs.is_empty());
    let c = CrashFile::new_from_function_at(&f, &"ws".to_string(), "T");
    assert_eq!(c.path, "CRASHES_main_T.json");
    assert!(c.crashes.is_empty());
    let now = InputFile::new_from_function(&f, &"ws".to_string());
    assert!(now.path.starts_with("main_") && now.path.ends_with(".json"));
    let now = CrashFile::new_from_function(&f, &"ws".to_string());
    assert!(now.path.starts_with("CRASHES_main_") && now.path.ends_with(".json"));
}

#[test]
fn corpus_files_read_from_json() {
    let data = obj(vec![
        ("name", s("main")),
        ("args", arr(vec![s("felt")])),
        ("inputs", arr(vec![arr(vec![n(1), n(2)]), arr(vec![n(258)])])),
    ]);
    let f = InputFile::from_json(&data, &"file.json".to_string(), &"ws".to_string()).unwrap();
    assert_eq!(f.inputs, vec![vec![1u8, 2], vec![2u8]]);
    assert_eq!(f.args, vec!["felt".to_string()]);
    assert_eq!(f.path, "file.json");
    assert!(CrashFile::from_json(&data, &"file.json".to_string(), &"ws".to_string()).is_none());
    let crashes = obj(vec![
        ("name", s("main")),
        ("args", arr(vec![])),
        ("crashes", arr(vec![arr(vec![n(7)])])),
    ]);
    let c = CrashFile::from_json(&crashes, &"c.json".to_string(), &"ws".to_string()).unwrap();
    assert_eq!(c.crashes, vec![vec![7u8]]);
    let bad = obj(vec![("name", s("main")), ("args", arr(vec![n(1)])), ("inputs", arr(vec![]))]);
    assert!(InputFile::from_json(&bad, &"f".to_string(), &"w".to_string()).is_none());
}

#[test]
fn corpus_paths() {
    assert_eq!(inputs_corpus_path(&String::new(), &"main".to_string()), "inputs_corpus/main_inputs.json");
    assert_eq!(inputs_corpus_path(&"mine.json".to_string(), &"main".to_string()), "mine.json");
    assert_eq!(crashes_corpus_path(&String::new(), &"main".to_string()), "crashes_corpus/main_crashes.json");
    assert_eq!(crashes_corpus_path(&"c.json".to_string(), &"main".to_string()), "c.json");
}

#[test]
fn replay_corpus_choice_and_chunks() {
    let inputs = vec![vec![1u8], vec![2u8]];
    let crashes = vec![vec![9u8]];
    assert_eq!(choose_replay_corpus(&String::new(), inputs.clone(), crashes.clone()), inputs);
    assert_eq!(choose_replay_corpus(&"c".to_string(), inputs.clone(), crashes.clone()), crashes);
    assert_eq!(choose_replay_corpus(&String::new(), vec![], crashes.clone()), crashes);
    let corpus: Vec<Vec<u8>> = (0..7u8).map(|i| vec![i]).collect();
    let chunks = split_corpus(&corpus, 3);
    assert_eq!(chunks.len(), 4);
    assert_eq!(chunks[0], vec![vec![0u8], vec![1u8]]);
    assert_eq!(chunks[3], vec![vec![6u8]]);
    let chunks = split_corpus(&corpus, 10);
    assert_eq!(chunks.len(), 7);
    let chunks = split_corpus(&corpus, -1);
    assert_eq!(chunks.len(), 7);
    assert!(split_corpus(&vec![], 0).is_empty());
}

#[test]
fn loaded_inputs_join_the_statistics() {
    let mut stats = Statistics::new();
    load_corpus_inputs(&mut stats, &vec![vec![1u8], vec![2u8], vec![1u8]]);
    assert_eq!(stats.input_len, 3);
    assert_eq!(stats.input_list.len(), 3);
    assert_eq!(stats.input_db.len(), 2);
    assert!(stats.input_db.contains(&vec![2u8]));
    assert_eq!(*stats.get_input_by_index(2), vec![1u8]);
}

#[test]
fn worker_records_coverage_and_crashes() {
    let mut global = Statistics::new();
    let mut local = Statistics::new();
    let mut corpus: Vec<Vec<u8>> = vec![];
    let mut crash_corpus: Vec<Vec<u8>> = vec![];
    let input = Arc::new(vec![5u8, 6]);
    assert!(record_coverage(&mut local, &mut global, &vec![(1, 2)], &input, &mut corpus));
    assert_eq!(corpus, vec![vec![5u8, 6]]);
    assert_eq!(global.input_len, 1);
    // the same trace again is nothing new
    assert!(!record_coverage(&mut local, &mut global, &vec![(1, 2)], &input, &mut corpus));
    assert_eq!(corpus.len(), 1);
    assert!(record_crash(&mut local, &mut global, &Arc::new(vec![7u8]), &mut crash_corpus));
    assert!(!record_crash(&mut local, &mut global, &Arc::new(vec![7u8]), &mut crash_corpus));
    assert_eq!(global.crashes, 2);
    assert_eq!(local.crashes, 2);
    assert_eq!(crash_corpus, vec![vec![7u8]]);
}

#[test]
fn worker_refreshes_from_the_shared_statistics() {
    let mut global = Statistics::new();
    let mut other = Statistics::new();
    let mut corpus: Vec<Vec<u8>> = vec![];
    record_coverage(&mut other, &mut global, &vec![(0, 1)], &Arc::new(vec![1u8]), &mut corpus);
    let mut local = Statistics::new();
    local.fuzz_cases = 5;
    refresh_local(&mut local, &global);
    assert_eq!(local.input_len, 1);
    assert_eq!(local.fuzz_cases, 5);
    assert!(local.coverage_db.contains_key(&vec![(0, 1)]));
}

#[test]
fn worker_publishes_cases_every_thousand() {
    let mut global = Statistics::new();
    let mut local = Statistics::new();
    for _ in 0..2002 {
        count_case(&mut local, &mut global);
    }
    assert_eq!(local.fuzz_cases, 2002);
    // published after cases 1, 1001 and 2001
    assert_eq!(global.fuzz_cases, 3000);
}

#[test]
fn minimizer_keeps_new_traces_and_errors() {
    let mut m = MinimizerStats::new();
    assert!(m.keep_trace(vec![(1, 1)], &vec![1u8]));
    assert!(!m.keep_trace(vec![(1, 1)], &vec![2u8]));
    assert!(m.keep_trace(vec![(1, 2)], &vec![2u8]));
    assert_eq!(m.input_len, 2);
    assert_eq!(m.removed_files, 1);
    assert!(m.keep_error(&"boom".to_string()));
    assert!(!m.keep_error(&"boom".to_string()));
    assert!(m.keep_error(&"bang".to_string()));
    assert_eq!(m.removed_files, 2);
    assert_eq!(m.crash_messages, vec!["boom".to_string(), "bang".to_string()]);
}

#[test]
fn error_counts_count_each_message() {
    let mut c = ErrorCounts::new();
    assert!(c.record(&"a".to_string()));
    assert!(!c.record(&"a".to_string()));
    assert!(c.record(&"b".to_string()));
    assert!(!c.record(&"a".to_string()));
}

#[test]
fn traces_from_vm_offsets() {
    assert_eq!(trace_of(&vec![(1, 2), (3, 4)]), Some(vec![(1u32, 2u32), (3, 4)]));
    assert_eq!(trace_of(&vec![]), Some(vec![]));
    assert_eq!(trace_of(&vec![(1, 2), (u32::MAX as usize + 1, 0)]), None);
}

#[test]
fn corpus_rows_of_a_member() {
    let data = obj(vec![("inputs", arr(vec![arr(vec![n(300), n(4)])]))]);
    assert_eq!(read_member_rows(&data, "inputs"), Some(vec![vec![44u8, 4]]));
    assert_eq!(read_member_rows(&data, "crashes"), None);
    let not_ints = obj(vec![("inputs", arr(vec![arr(vec![s("a")])]))]);
    assert_eq!(read_member_rows(&not_ints, "inputs"), None);
}

#[test]
fn replay_runs_record_coverage_crashes_and_completion() {
    let mut local = Statistics::new();
    let mut global = Statistics::new();
    let mut errors = ErrorCounts::new();
    let a = Arc::new(vec![1u8, 2]);
    let b = Arc::new(vec![3u8]);

    let first = record_replay_run(&mut local, &mut global, &a, &Ok(vec![(0, 1), (2, 3)]), &mut errors, false);
    assert!(!first);
    assert_eq!(global.input_len, 1);
    assert_eq!(global.fuzz_cases, 1);
    assert!(global.coverage_db.contains_key(&vec![(0, 1), (2, 3)]));
    assert!(local.coverage_db.contains_key(&vec![(0, 1), (2, 3)]));

    // a crash lists a new input and counts its error message
    assert!(record_replay_run(&mut local, &mut global, &b, &Err("boom".to_string()), &mut errors, false));
    assert_eq!(global.crashes, 1);
    assert_eq!(local.crashes, 1);
    assert_eq!(global.input_len, 2);
    assert!(global.crash_db.contains(&vec![3u8]));
    // the same error again is not reported, and the known input is not listed again
    assert!(!record_replay_run(&mut local, &mut global, &b, &Err("boom".to_string()), &mut errors, true));
    assert_eq!(global.crashes, 2);
    assert_eq!(global.input_len, 2);
    assert_eq!(global.fuzz_cases, 3);
    assert_eq!(global.threads_finished, 1);
}
