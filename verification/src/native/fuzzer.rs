//! The decisions of the cairo-native fuzzer: the parameters it starts from,
//! how long it runs, what counts as a crash, how it finds the number of
//! arguments of an array parameter and which functions are property tests.
use vstd::prelude::*;
use std::time::Instant;
use crate::felt::FeltBytes;
use crate::native::argument_type::{map_argument_type, ArgumentType};
use crate::native::mutator::{applies, is_mutation, mutation_valid, Mutation, Mutator};
use crate::native::utils::get_cairo_native_version;
use crate::text::{matches_at, spec_starts_with, starts_with, str_eq};

verus! {

#[verifier::external_type_specification]
#[verifier::external_body]
pub struct ExInstant(Instant);

/// `Instant::now` reads the monotonic clock; nothing is stated of the
/// value, which depends on the time of the call.
#[verifier::external_body]
fn instant_now() -> Instant {
    Instant::now()
}

/// Counters of a fuzzing campaign on one function.
pub struct FuzzerStats {
    /// Executions that did not crash.
    pub total_executions: usize,
    /// When the campaign started.
    pub start_time: Instant,
    /// Executions that crashed.
    pub crashes: usize,
}

impl Default for FuzzerStats {
    /// No execution and no crash yet, started now.
    fn default() -> (r: Self)
        ensures
            r.total_executions == 0,
            r.crashes == 0,
    {
        FuzzerStats { total_executions: 0, crashes: 0, start_time: instant_now() }
    }
}

impl FuzzerStats {
    /// Counts one execution: a crash when `crashed`, a completed execution
    /// otherwise.
    pub fn count_execution(&mut self, crashed: bool)
        requires
            crashed ==> old(self).crashes < usize::MAX,
            !crashed ==> old(self).total_executions < usize::MAX,
        ensures
            final(self).crashes == old(self).crashes + (if crashed { 1int } else { 0int }),
            final(self).total_executions == old(self).total_executions + (if crashed { 0int } else { 1int }),
            final(self).start_time == old(self).start_time,
    {
        if crashed {
            self.crashes += 1;
        } else {
            self.total_executions += 1;
        }
    }
}

/// The number of iterations a campaign runs: as many as asked, or as many
/// as an `i32` can count when `-1` is asked.
pub fn max_iterations(iter: i32) -> (r: i32)
    ensures
        r == (if iter == -1 { i32::MAX } else { iter }),
{
    if iter == -1 {
        i32::MAX
    } else {
        iter
    }
}

/// Whether the statistics are printed after iteration `current_iter`: every
/// thousand iterations, not at the first.
pub fn should_print_statistics(current_iter: i32) -> (r: bool)
    ensures
        r == (current_iter % 1000 == 0 && current_iter != 0),
{
    current_iter % 1000 == 0 && current_iter != 0
}

/// The message of the failure the fuzzer ignores when it looks for crashes:
/// the first parameter could not be read.
pub open spec fn first_param_message() -> Seq<char> {
    "Failed to deserialize param #1"@
}

/// Whether an execution crashed: its failure flag is set and its error is
/// not that the first parameter could not be read.
pub fn is_crash(failure_flag: bool, error_msg: &Option<String>) -> (r: bool)
    ensures
        r == (failure_flag && !(error_msg matches Some(m) && m@ == first_param_message())),
{
    if !failure_flag {
        return false;
    }
    match error_msg {
        Some(m) => !str_eq(m.as_str(), "Failed to deserialize param #1"),
        None => true,
    }
}

/// Whether an execution asks for one more argument: its failure flag is set
/// and its error says that a parameter could not be read.
pub fn needs_more_arguments(failure_flag: bool, error_msg: &Option<String>) -> (r: bool)
    ensures
        r == (failure_flag && (error_msg matches Some(m) && spec_starts_with(m@, "Failed to deserialize param"@))),
{
    if !failure_flag {
        return false;
    }
    match error_msg {
        Some(m) => starts_with(m.as_str(), "Failed to deserialize param"),
        None => false,
    }
}

/// The felt252 zero.
pub open spec fn zero_felt() -> Seq<u8> {
    Seq::new(32, |i: int| 0u8)
}

/// The parameters a campaign starts from, one zero felt per argument, and
/// whether the number of arguments is still to be found: it is when an
/// argument is a felt array, or when it already was.
pub fn generate_params(argument_types: &Vec<ArgumentType>, unknown_arguments_count: bool) -> (r: (Vec<FeltBytes>, bool))
    ensures
        r.0.len() == argument_types.len(),
        forall|i: int| 0 <= i < r.0.len() ==> (#[trigger] r.0@[i])@ == zero_felt(),
        r.1 == (unknown_arguments_count || exists|i: int| 0 <= i < argument_types.len() && #[trigger] argument_types@[i] == ArgumentType::FeltArray),
{
    let mut params: Vec<FeltBytes> = Vec::new();
    let mut unknown = unknown_arguments_count;
    let mut i: usize = 0;
    while i < argument_types.len()
        invariant
            i <= argument_types.len(),
            params.len() == i,
            forall|j: int| 0 <= j < i ==> (#[trigger] params@[j])@ == zero_felt(),
            unknown == (unknown_arguments_count || exists|j: int| 0 <= j < i && #[trigger] argument_types@[j] == ArgumentType::FeltArray),
        decreases argument_types.len() - i,
    {
        let z: FeltBytes = [0u8; 32];
        assert(z@ =~= zero_felt());
        match &argument_types[i] {
            ArgumentType::Felt => {},
            ArgumentType::FeltArray => {
                unknown = true;
            },
        }
        params.push(z);
        i += 1;
    }
    (params, unknown)
}

/// Mutates every parameter once, in order; returns the mutation drawn for
/// each parameter, the new parameter being what that mutation makes of the
/// old one.
pub fn mutate_parameters(mutator: &mut Mutator, params: &mut Vec<FeltBytes>) -> (r: Vec<Mutation>)
    requires
        old(mutator).wf(),
    ensures
        final(mutator).wf(),
        final(mutator).max_input_size() == old(mutator).max_input_size(),
        final(mutator).magic() == old(mutator).magic(),
        final(params).len() == old(params).len(),
        r.len() == old(params).len(),
        forall|i: int| 0 <= i < final(params).len() ==> {
            &&& mutation_valid(#[trigger] r@[i], old(mutator).magic().len() as int, old(mutator).max_input_size())
            &&& applies(old(params)@[i]@, r@[i], old(mutator).magic(), final(params)@[i]@)
            &&& is_mutation(old(params)@[i]@, final(params)@[i]@, old(mutator).magic(), old(mutator).max_input_size())
        },
{
    let ghost original = params@;
    let mut draws: Vec<Mutation> = Vec::new();
    let mut i: usize = 0;
    while i < params.len()
        invariant
            i <= params.len(),
            params.len() == original.len(),
            draws.len() == i,
            mutator.wf(),
            mutator.max_input_size() == old(mutator).max_input_size(),
            mutator.magic() == old(mutator).magic(),
            forall|j: int| i <= j < params.len() ==> params@[j] == original[j],
            forall|j: int| 0 <= j < i ==> {
                &&& mutation_valid(#[trigger] draws@[j], old(mutator).magic().len() as int, old(mutator).max_input_size())
                &&& applies(original[j]@, draws@[j], old(mutator).magic(), params@[j]@)
                &&& is_mutation(original[j]@, params@[j]@, old(mutator).magic(), old(mutator).max_input_size())
            },
        decreases params.len() - i,
    {
        let d = mutator.draw_mutation();
        let m = mutator.apply_mutation(params[i], &d);
        params.set(i, m);
        draws.push(d);
        i += 1;
    }
    draws
}

/// Whether a parameter type's debug name is `felt252`.
pub open spec fn is_felt_name(n: Option<String>) -> bool {
    n matches Some(s) && s@ == "felt252"@
}

/// The number of parameter types whose debug name is `felt252`.
pub open spec fn count_felt_names(names: Seq<Option<String>>) -> nat
    decreases names.len(),
{
    if names.len() == 0 {
        0
    } else {
        count_felt_names(names.drop_last()) + (if is_felt_name(names.last()) { 1nat } else { 0nat })
    }
}

/// The argument types of a function, from the debug names of its parameter
/// types: one felt argument for each `felt252` parameter; the others, and
/// parameters without a debug name, are left out.
pub fn argument_types_of(param_names: &Vec<Option<String>>) -> (r: Vec<ArgumentType>)
    ensures
        r.len() == count_felt_names(param_names@),
        forall|i: int| 0 <= i < r.len() ==> #[trigger] r@[i] == ArgumentType::Felt,
{
    let mut r: Vec<ArgumentType> = Vec::new();
    let mut i: usize = 0;
    while i < param_names.len()
        invariant
            i <= param_names.len(),
            r.len() == count_felt_names(param_names@.take(i as int)),
            forall|j: int| 0 <= j < r.len() ==> #[trigger] r@[j] == ArgumentType::Felt,
        decreases param_names.len() - i,
    {
        proof {
            assert(param_names@.take(i + 1).drop_last() =~= param_names@.take(i as int));
        }
        if let Some(name) = &param_names[i] {
            if let Some(t) = map_argument_type(name.as_str()) {
                r.push(t);
            }
        }
        i += 1;
    }
    assert(param_names@.take(param_names.len() as int) =~= param_names@);
    r
}

/// Where the last `::`-separated piece of `s` begins, separators being
/// found from left to right without overlapping, when the scan is at
/// position `i` and the current piece begins at `start`.
pub open spec fn piece_start(s: Seq<char>, i: int, start: int) -> int
    decreases s.len() - i,
{
    if i < 0 || i + 1 >= s.len() {
        start
    } else if s[i] == ':' && s[i + 1] == ':' {
        piece_start(s, i + 2, i + 2)
    } else {
        piece_start(s, i + 1, start)
    }
}

/// The last `::`-separated piece of `s`.
pub open spec fn last_piece(s: Seq<char>) -> Seq<char> {
    s.skip(piece_start(s, 0, 0))
}

/// `s` without the copies of `p` it begins with.
pub open spec fn trim_start_all(s: Seq<char>, p: Seq<char>) -> Seq<char>
    decreases s.len(),
{
    if p.len() > 0 && spec_starts_with(s, p) {
        trim_start_all(s.skip(p.len() as int), p)
    } else {
        s
    }
}

/// Whether an entry point is a property test: the last piece of its path,
/// without `__wrapper__` prefixes, starts with `fuzz_`.
pub open spec fn is_proptest_name(s: Seq<char>) -> bool {
    spec_starts_with(trim_start_all(last_piece(s), "__wrapper__"@), "fuzz_"@)
}

/// Whether the entry point `name` is a property test.
pub fn is_proptest_entry_point(name: &str) -> (r: bool)
    ensures
        r == is_proptest_name(name@),
{
    let len = name.unicode_len();
    let mut i: usize = 0;
    let mut start: usize = 0;
    while len > 0 && i < len - 1
        invariant
            len == name@.len(),
            i <= len,
            start <= i,
            start <= len,
            piece_start(name@, i as int, start as int) == piece_start(name@, 0, 0),
        decreases len - i,
    {
        if name.get_char(i) == ':' && name.get_char(i + 1) == ':' {
            i = i + 2;
            start = i;
        } else {
            i = i + 1;
        }
    }
    let wrapper = "__wrapper__";
    proof {
        reveal_strlit("__wrapper__");
    }
    assert(name@.subrange(start as int, len as int) =~= last_piece(name@));
    let mut p: usize = start;
    while matches_at(name, p, wrapper)
        invariant
            start <= p <= len,
            len == name@.len(),
            wrapper@.len() == 11,
            wrapper@ == "__wrapper__"@,
            trim_start_all(name@.subrange(p as int, len as int), "__wrapper__"@) == trim_start_all(last_piece(name@), "__wrapper__"@),
        decreases len - p,
    {
        let ghost sub = name@.subrange(p as int, len as int);
        assert(spec_starts_with(sub, "__wrapper__"@));
        assert(sub.len() >= 11);
        assert(sub.skip(11) =~= name@.subrange(p + 11, len as int));
        assert(trim_start_all(sub, "__wrapper__"@) == trim_start_all(sub.skip(11), "__wrapper__"@));
        p = p + 11;
    }
    matches_at(name, p, "fuzz_")
}

/// The property tests of a list of entry point names, in order.
pub open spec fn proptest_names(s: Seq<Seq<char>>) -> Seq<Seq<char>>
    decreases s.len(),
{
    if s.len() == 0 {
        s
    } else if is_proptest_name(s.last()) {
        proptest_names(s.drop_last()).push(s.last())
    } else {
        proptest_names(s.drop_last())
    }
}

/// The characters of each string.
pub open spec fn names_view(s: Seq<String>) -> Seq<Seq<char>> {
    s.map_values(|x: String| x@)
}

/// The property tests among the entry points, in order.
pub fn proptest_entry_points(entry_points: &Vec<String>) -> (r: Vec<String>)
    ensures
        names_view(r@) == proptest_names(names_view(entry_points@)),
{
    let ghost names = names_view(entry_points@);
    let mut r: Vec<String> = Vec::new();
    let mut i: usize = 0;
    assert(names.take(0) =~= Seq::<Seq<char>>::empty());
    assert(names_view(r@) =~= Seq::<Seq<char>>::empty());
    while i < entry_points.len()
        invariant
            i <= entry_points.len(),
            names == names_view(entry_points@),
            names_view(r@) == proptest_names(names.take(i as int)),
        decreases entry_points.len() - i,
    {
        proof {
            assert(names.take(i + 1).drop_last() =~= names.take(i as int));
            assert(names.take(i + 1).last() == entry_points@[i as int]@);
        }
        let ghost before = r@;
        if is_proptest_entry_point(entry_points[i].as_str()) {
            r.push(entry_points[i].clone());
            assert(names_view(r@) =~= names_view(before).push(entry_points@[i as int]@));
        }
        i += 1;
    }
    assert(names.take(entry_points.len() as int) =~= names);
    r
}

} // verus!
