//! Miscellaneous helpers of the cairo-native fuzzer: its version and the
//! banner it prints at launch.
use vstd::prelude::*;

verus! {

/// Return the current cairo-native package version
pub fn get_cairo_native_version() -> (r: String)
    ensures
        r@ == "0.2.5-rc1"@,
{
    String::from_str("0.2.5-rc1")
}

/// Where `p` first occurs in `s`, if it does.
pub open spec fn first_occurrence(s: Seq<char>, p: Seq<char>) -> Option<int>
    decreases s.len(),
{
    if p.len() <= s.len() && s.take(p.len() as int) == p {
        Some(0)
    } else if s.len() == 0 {
        None
    } else {
        match first_occurrence(s.drop_first(), p) {
            Some(i) => Some(i + 1),
            None => None,
        }
    }
}

/// `s` with the first occurrence of `p` replaced by `w` (unchanged when `p`
/// does not occur).
pub open spec fn replace_first(s: Seq<char>, p: Seq<char>, w: Seq<char>) -> Seq<char> {
    match first_occurrence(s, p) {
        Some(i) => s.take(i) + w + s.skip(i + p.len()),
        None => s,
    }
}

/// `Regex::replace` with the pattern `\{\}` and a `NoExpand` replacement:
/// the regex crate replaces the leftmost match of the pattern, which for
/// this literal pattern is the first occurrence of `{}`, with the
/// replacement text taken literally, and returns the haystack unchanged when
/// there is no match. The pattern is valid, so `Regex::new` succeeds.
#[verifier::external_body]
fn replace_first_placeholder(text: &str, replacement: &str) -> (r: String)
    ensures
        r@ == replace_first(text@, "{}"@, replacement@),
{
    regex::Regex::new(r"\{\}").unwrap().replace(text, regex::NoExpand(replacement)).to_string()
}

/// The digit character of `d`.
pub open spec fn digit_char(d: nat) -> char {
    "0123456789"@[d as int]
}

/// The decimal digits of `n`, most significant first, without leading
/// zeros (`0` for zero).
pub open spec fn spec_decimal(n: nat) -> Seq<char>
    decreases n,
{
    if n < 10 {
        seq![digit_char(n)]
    } else {
        spec_decimal(n / 10) + seq![digit_char(n % 10)]
    }
}

/// The decimal text of `n`.
pub fn decimal(n: u64) -> (r: String)
    ensures
        r@ == spec_decimal(n as nat),
    decreases n,
{
    let digits = "0123456789";
    proof {
        reveal_strlit("0123456789");
    }
    let d = (n % 10) as usize;
    let last = digits.substring_char(d, d + 1);
    assert(last@ =~= seq![digit_char((n % 10) as nat)]);
    if n < 10 {
        String::from_str(last)
    } else {
        decimal(n / 10).concat(last)
    }
}

/// The banner printed at launch, with a placeholder for the seed and one
/// for the cairo-native version.
pub open spec fn init_message_format() -> Seq<char> {
    "
=============================================================================================================================================================
╔═╗ ┌─┐ ┬ ┬─┐ ┌───┐   ╔═╗ ┬ ┬ ┌─┐ ┌─┐ ┌─┐ ┬─┐      | Seed -- {}
║   ├─┤ │ ├┬┘ │2.0│───╠╣  │ │ ┌─┘ ┌─┘ ├┤  ├┬┘      | cairo-native version -- {}
╚═╝ ┴ ┴ ┴ ┴└─ └───┘   ╚   └─┘ └─┘ └─┘ └─┘ ┴└─      |
=============================================================================================================================================================
"@
}

/// The banner printed at launch: the first placeholder replaced by the
/// seed, the next by the cairo-native version.
pub fn init_message(seed: u64) -> (r: String)
    ensures
        r@ == replace_first(
            replace_first(init_message_format(), "{}"@, spec_decimal(seed as nat)),
            "{}"@,
            "0.2.5-rc1"@,
        ),
{
    let version = get_cairo_native_version();
    let format = "
=============================================================================================================================================================
╔═╗ ┌─┐ ┬ ┬─┐ ┌───┐   ╔═╗ ┬ ┬ ┌─┐ ┌─┐ ┌─┐ ┬─┐      | Seed -- {}
║   ├─┤ │ ├┬┘ │2.0│───╠╣  │ │ ┌─┘ ┌─┘ ├┤  ├┬┘      | cairo-native version -- {}
╚═╝ ┴ ┴ ┴ ┴└─ └───┘   ╚   └─┘ └─┘ └─┘ └─┘ ┴└─      |
=============================================================================================================================================================
";
    let message = replace_first_placeholder(format, decimal(seed).as_str());
    replace_first_placeholder(message.as_str(), version.as_str())
}

} // verus!
