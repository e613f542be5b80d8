# cairo_fuzzer

A verified core for a family of fuzzers of Cairo programs and Starknet
contracts, written in Verus.

`src/` holds the library. Every function in it is verified except the
wrappers around outside calls listed at the end, whose contracts are
trusted:

- `xorshift`, `cairo_fuzz::rng`, `native::rng`, `rustic::rng`: the xorshift64
  generators the fuzzers draw from.
- `felt`: felt252 values as 32 big-endian bytes, with the field operations of
  `starknet-types-core`.
- `native`: the cairo-native fuzzer — byte-level and arithmetic mutation
  strategies on one felt, parameter generation, crash and argument-count
  decisions, property-test selection and the launch banner.
- `rustic`: the Starknet fuzzer — typed parameters and their calldata, the
  contract ABI reader, coverage and unique-crash sets, the worker's and the
  coordinating fuzzer's decisions, and the interface's navigation.
- `cairo_fuzz`: the Cairo VM fuzzer — shared statistics and the worker's
  bookkeeping, the replay's bookkeeping, program and corpus readers, corpus
  sharing for replays and the minimizer's decisions.
- `ids`, `memory`: the identifiers of a Cairo hint — constants, struct sizes
  and references read and assigned against the registers and memory of a
  paused VM — and the hint's view of that memory.
- `json`, `text`, `timeout`, `relocatable`, `run_context`, `scope`: JSON
  documents as the readers see them (parsed from their text by
  `serde_json`), string helpers, timeouts, VM addresses and registers, and
  hint scopes.

`app/` is the command-line program around the Starknet fuzzer: argument and
file handling, threads, the terminal interface and the execution engine.

Trusted items (contracts believed, not proved):

- `felt::felt_reduce`, `felt_from_i64`, `felt_add`, `felt_sub`,
  `felt_from_u128`: field operations of `starknet-types-core`'s `Felt`.
- `json::parse_json_text` (with the name `json_of_text` for its result and
  the converter `json_from_value`), and the declared `serde_json::Value`:
  `serde_json::from_str`.
- `cairo_fuzz::stats::share_input`: `Arc::clone`.
- `cairo_fuzz::corpus::timestamp_now`: `chrono`'s `Utc::now().format(..)`.
- `native::fuzzer::instant_now` and the declared `Instant`: `Instant::now`.
- `native::utils::replace_first_placeholder`: `regex`'s `Regex::replace`.
- `native::mutator::thread_rng`, `gen_range_usize`, `gen_byte` and the
  declared `ThreadRng`: `rand`'s thread-local generator.
- `native::rng`: `assume_specification`s of `RangeInclusive::start` and
  `RangeInclusive::end`.
- `timeout::duration_from_millis` (with the name `duration_of_millis`):
  `Duration::from_millis`.
