use regex::Regex;
use vstd::prelude::*;

verus! {

/// Index of the first occurrence of `c` in `s`, or `s.len()` if there is none.
pub open spec fn first_index(s: Seq<char>, c: char) -> nat
    decreases s.len(),
{
    if s.len() == 0 {
        0
    } else if s[0] == c {
        0
    } else {
        1 + first_index(s.skip(1), c)
    }
}

/// `s` with every leftmost, non-overlapping `<...>` span removed: a `<`,
/// then any characters but `>`, then the first `>` after it. A `<` with no
/// `>` anywhere after it starts a tail that is kept as it is.
pub open spec fn strip_tags(s: Seq<char>) -> Seq<char>
    decreases s.len(),
{
    if s.len() == 0 {
        s
    } else if s[0] == '<' {
        if first_index(s, '>') < s.len() {
            strip_tags(s.skip(first_index(s, '>') as int + 1))
        } else {
            s
        }
    } else {
        seq![s[0]] + strip_tags(s.skip(1))
    }
}

/// `s` with every leftmost, non-overlapping occurrence of `pat` replaced by `rep`.
pub open spec fn replace_all(s: Seq<char>, pat: Seq<char>, rep: Seq<char>) -> Seq<char>
    decreases s.len(),
{
    if pat.len() == 0 || s.len() < pat.len() {
        s
    } else if s.subrange(0, pat.len() as int) == pat {
        rep + replace_all(s.skip(pat.len() as int), pat, rep)
    } else {
        seq![s[0]] + replace_all(s.skip(1), pat, rep)
    }
}

/// The entity for a non-breaking space.
pub open spec fn nbsp() -> Seq<char> {
    seq!['&', 'n', 'b', 's', 'p', ';']
}

/// The text shown for a description: its tags removed, then each
/// non-breaking-space entity turned into one ASCII space.
pub open spec fn sanitized(s: Seq<char>) -> Seq<char> {
    replace_all(strip_tags(s), nbsp(), seq![' '])
}

#[verifier::external_type_specification]
#[verifier::external_body]
pub struct ExRegex(Regex);

#[verifier::external_type_specification]
#[verifier::external_body]
pub struct ExRegexError(regex::Error);

/// The pattern text that a compiled regex was built from.
pub uninterp spec fn regex_source(re: Regex) -> Seq<char>;

/// The pattern of a markup tag: `<`, any run of characters but `>`, then `>`.
pub const TAG_PATTERN: &'static str = "<[^>]*>";

/// Relies on regex::Regex::new: on success the regex keeps its pattern text,
/// which `Regex::as_str` hands back unchanged; it fails only on an invalid
/// pattern or one over the default size limit, and the tag pattern is
/// neither.
#[verifier::external_body]
pub(crate) fn compile_pattern(pattern: &str) -> (r: Result<Regex, regex::Error>)
    ensures
        r matches Ok(re) ==> regex_source(re) == pattern@,
        pattern@ == TAG_PATTERN@ ==> r is Ok,
{
    Regex::new(pattern)
}

/// Relies on regex::Regex::replace_all with an empty replacement: every
/// leftmost-first, non-overlapping match is removed. For the tag pattern a
/// match starts at a `<` and ends at the first `>` after it.
#[verifier::external_body]
pub(crate) fn remove_matches(re: &Regex, text: &str) -> (r: String)
    ensures
        regex_source(*re) == TAG_PATTERN@ ==> r@ == strip_tags(text@),
{
    re.replace_all(text, "").into_owned()
}

/// Relies on str::replace: every leftmost, non-overlapping occurrence of a
/// non-empty `from` is replaced by `to`.
#[verifier::external_body]
pub(crate) fn replace_text(text: &str, from: &str, to: &str) -> (r: String)
    requires
        from@.len() > 0,
    ensures
        r@ == replace_all(text@, from@, to@),
{
    text.replace(from, to)
}

} // verus!
