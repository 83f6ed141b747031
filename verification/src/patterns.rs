//! The textual patterns that delimit a block, and the regular-expression
//! engine that recognises them.

use regex::Regex;
use vstd::prelude::*;

verus! {

/// A block opens with `MM/DD/YYYY HH:MM:SS` at the start of a line.
pub const START_PATTERN: &'static str = r"^\d{2}/\d{2}/\d{4}\s\d{2}:\d{2}:\d{2}";

/// A block closes with a word, hyphens and `END TRANSMITTED` at the start of a line.
pub const END_PATTERN: &'static str = r"^\w+\s-+\sEND\sTRANSMITTED";

/// The identifier line: a word (the identifier), hyphens, `TRANSMITTED`, hyphens.
pub const ID_PATTERN: &'static str = r"^(\w+)\s-+\sTRANSMITTED\s-+\s";

/// A `name = value` assignment, anywhere in a line.
pub const ASSIGN_PATTERN: &'static str = r"(\w+)\s=\s(\S+)";

/// `regex::Regex`, a compiled expression; nothing of its inside is read here.
#[verifier::external_type_specification]
#[verifier::external_body]
pub struct ExRegex(regex::Regex);

/// `regex::Error`, why a pattern did not compile.
#[verifier::external_type_specification]
#[verifier::external_body]
pub struct ExRegexError(regex::Error);

/// The pattern text that a compiled expression was made from, as
/// `Regex::as_str` returns it.
pub uninterp spec fn pattern_of(re: Regex) -> Seq<char>;

/// Whether `Regex::new` accepts a pattern text.
pub uninterp spec fn regex_compiles(pattern: Seq<char>) -> bool;

/// Whether the expression compiled from `pattern` matches anywhere in
/// `haystack`, as `Regex::is_match` decides it.
pub uninterp spec fn regex_is_match(pattern: Seq<char>, haystack: Seq<char>) -> bool;

/// The text of capture group `index` in the leftmost match of the expression
/// compiled from `pattern` in `haystack`, as `Regex::captures` finds it;
/// `None` where nothing matches, where the pattern has no such group, or
/// where the group took no part in the match.
pub uninterp spec fn regex_group(pattern: Seq<char>, haystack: Seq<char>, index: int) -> Option<
    Seq<char>,
>;

/// Calls `Regex::new`, which compiles with the engine's default options.
/// Trusted: whether the pattern compiles depends on the pattern text alone,
/// and the compiled expression keeps that text.
#[verifier::external_body]
pub(crate) fn compile(pattern: &str) -> (r: Result<Regex, regex::Error>)
    ensures
        r is Ok <==> regex_compiles(pattern@),
        r matches Ok(re) ==> pattern_of(re) == pattern@,
{
    Regex::new(pattern)
}

/// Calls `Regex::is_match` on an expression that `compile` made. Trusted: the
/// answer depends on the pattern text and the haystack alone.
#[verifier::external_body]
pub(crate) fn is_match(re: &Regex, haystack: &str) -> (b: bool)
    ensures
        b == regex_is_match(pattern_of(*re), haystack@),
{
    re.is_match(haystack)
}

/// Calls `Regex::captures` on an expression that `compile` made, then
/// `Captures::get` for one group, and hands out the slice of the haystack
/// that the group matched. Trusted: the slice depends on the pattern text,
/// the haystack and the index alone.
#[verifier::external_body]
pub(crate) fn capture_group<'h>(re: &Regex, haystack: &'h str, index: usize) -> (r: Option<
    &'h str,
>)
    ensures
        r is Some <==> regex_group(pattern_of(*re), haystack@, index as int) is Some,
        r matches Some(text) ==> regex_group(pattern_of(*re), haystack@, index as int) == Some(
            text@,
        ),
{
    re.captures(haystack).and_then(|c| c.get(index)).map(|m| m.as_str())
}

/// Calls `str::eq`. Trusted: two string slices are equal exactly when they
/// hold the same characters.
#[verifier::external_body]
pub(crate) fn same_text(a: &str, b: &str) -> (r: bool)
    ensures
        r == (a@ == b@),
{
    a == b
}

/// The line closes a block.
pub open spec fn is_end(line: Seq<char>) -> bool {
    regex_is_match(END_PATTERN@, line)
}

/// The time-stamp text of a line that opens a block.
pub open spec fn start_text(line: Seq<char>) -> Option<Seq<char>> {
    regex_group(START_PATTERN@, line, 0)
}

/// The identifier that an identifier line carries.
pub open spec fn line_id(line: Seq<char>) -> Option<Seq<char>> {
    regex_group(ID_PATTERN@, line, 1)
}

/// The name and the value of the first assignment in a line.
pub open spec fn line_assignment(line: Seq<char>) -> Option<(Seq<char>, Seq<char>)> {
    match (regex_group(ASSIGN_PATTERN@, line, 1), regex_group(ASSIGN_PATTERN@, line, 2)) {
        (Some(name), Some(value)) => Some((name, value)),
        _ => None,
    }
}

} // verus!
