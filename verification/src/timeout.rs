//! The execution timeout given on the command line, in milliseconds.
use vstd::prelude::*;
use std::time::Duration;
use crate::text::{parse_u64, spec_parse_u64};

verus! {

/// Why a timeout could not be read.
#[derive(Debug, Clone, Copy, PartialEq, Eq, Structural)]
pub enum TimeoutError {
    /// The text is not a number of milliseconds that fits in a `u64`.
    InvalidMillis,
}

/// The duration of `ms` milliseconds, as `Duration::from_millis` builds it.
pub uninterp spec fn duration_of_millis(ms: u64) -> Duration;

/// `Duration::from_millis` builds the duration of `ms` milliseconds: its
/// result is a function of `ms` alone. What the duration holds is not
/// stated, the type being opaque here.
#[verifier::external_body]
fn duration_from_millis(ms: u64) -> (r: Duration)
    ensures
        r == duration_of_millis(ms),
{
    Duration::from_millis(ms)
}

/// The number of milliseconds a timeout argument gives.
pub fn millis_from_str(time: &str) -> (r: Result<u64, TimeoutError>)
    ensures
        match spec_parse_u64(time@) {
            Some(ms) => r == Ok::<u64, TimeoutError>(ms),
            None => r == Err::<u64, TimeoutError>(TimeoutError::InvalidMillis),
        },
{
    match parse_u64(time) {
        Some(ms) => Ok(ms),
        None => Err(TimeoutError::InvalidMillis),
    }
}

/// The timeout a command-line argument gives, read as a number of
/// milliseconds; an error when it is not one.
pub fn timeout_from_millis_str(time: &str) -> (r: Result<Duration, TimeoutError>)
    ensures
        match spec_parse_u64(time@) {
            Some(ms) => r == Ok::<Duration, TimeoutError>(duration_of_millis(ms)),
            None => r == Err::<Duration, TimeoutError>(TimeoutError::InvalidMillis),
        },
{
    match millis_from_str(time) {
        Ok(ms) => Ok(duration_from_millis(ms)),
        Err(e) => Err(e),
    }
}

} // verus!
