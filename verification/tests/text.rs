use std::time::Duration;

use cairo_fuzzer::scope::{ExecutionScopes, PyExitScope, ScopeError};
use cairo_fuzzer::text::{parse_u64, starts_with, str_eq};
use cairo_fuzzer::timeout::{millis_from_str, timeout_from_millis_str, TimeoutError};

#[test]
fn parse_u64_reads_like_str_parse() {
    for text in ["0", "10000", "+5", "007", "18446744073709551615", "", "+", "-1", "1 ", "1a", "18446744073709551616", "99999999999999999999"] {
        assert_eq!(parse_u64(text), text.parse::<u64>().ok(), "{:?}", text);
    }
}

#[test]
fn timeouts_in_milliseconds() {
    assert_eq!(millis_from_str("10000"), Ok(10000));
    assert_eq!(millis_from_str("ten"), Err(TimeoutError::InvalidMillis));
    assert_eq!(timeout_from_millis_str("1500"), Ok(Duration::from_millis(1500)));
    assert_eq!(timeout_from_millis_str("0"), Ok(Duration::from_millis(0)));
    assert_eq!(timeout_from_millis_str("-3"), Err(TimeoutError::InvalidMillis));
}

#[test]
fn string_helpers() {
    assert!(starts_with("Fuzz_mint", "Fuzz_"));
    assert!(!starts_with("Fuz", "Fuzz_"));
    assert!(starts_with("abc", ""));
    assert!(str_eq("felt252", "felt252"));
    assert!(!str_eq("felt252", "felt25"));
}

#[test]
fn exit_scope_counts_calls() {
    let mut e = PyExitScope::new();
    assert_eq!(e.num_exits(), 0);
    e.__call__();
    e.__call__();
    assert_eq!(e.num_exits(), 2);
    assert_eq!(PyExitScope::default().num_exits(), 0);
}

#[test]
fn exit_scope_leaves_the_recorded_number_of_scopes() {
    let mut scopes = ExecutionScopes::new();
    scopes.enter_scope();
    scopes.enter_scope();
    let mut e = PyExitScope::new();
    e.__call__();
    e.__call__();
    assert_eq!(e.update_scopes(&mut scopes), Ok(()));
    assert_eq!(scopes.depth, 1);

    scopes.enter_scope();
    assert_eq!(e.update_scopes(&mut scopes), Err(ScopeError::ExitMainScope));
    assert_eq!(scopes.depth, 1);
    assert_eq!(PyExitScope::new().update_scopes(&mut scopes), Ok(()));
}
