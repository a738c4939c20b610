//! The matching primitive: compiled patterns of the `regex` crate and the few facts about
//! them that the tokenizer builds on. No contract in this file is proved; each restates
//! what the crate documents.

use regex::Regex;
use vstd::prelude::*;
use vstd::utf8::encode_utf8;
use vstd::utf8::is_char_boundary;

verus! {

/// A compiled pattern, `regex::Regex`. Its inside is not visible to the verifier.
#[verifier::external_type_specification]
#[verifier::external_body]
pub struct ExRegex(regex::Regex);

/// The error of a pattern that does not compile, `regex::Error`.
#[verifier::external_type_specification]
#[verifier::external_body]
pub struct ExRegexError(regex::Error);

/// Whether the pattern written as `source` compiles: whether `Regex::new` returns `Ok` for
/// it. `Regex::new` builds with fixed options and fixed size limits, so the answer
/// depends on the text alone.
pub uninterp spec fn pattern_compiles(source: Seq<char>) -> bool;

/// The pattern text that a compiled pattern was built from, as `Regex::as_str` gives it
/// back.
pub uninterp spec fn pattern_source(re: Regex) -> Seq<char>;

/// Whether a compiled pattern is a plain one: built as `Regex::new` builds, with every
/// option at its default. A pattern built with other options keeps the same text and
/// may match otherwise, so what a pattern text accepts is said of plain patterns only.
pub uninterp spec fn pattern_plain(re: Regex) -> bool;

/// Whether the pattern written as `source` matches somewhere in `text`: what
/// `Regex::is_match` returns for a plain pattern of that text. Anchors in the pattern bind the match to the ends of `text`.
pub uninterp spec fn pattern_accepts(source: Seq<char>, text: Seq<char>) -> bool;

/// The leftmost match of the pattern written as `source` in `text`, as the byte offsets
/// of its start and its end in the UTF-8 form of `text`: what `Regex::find` returns for a
/// plain pattern of that text.
pub uninterp spec fn pattern_span(source: Seq<char>, text: Seq<char>) -> Option<(int, int)>;

/// The span lies inside the UTF-8 form of `text` and cuts no character in two.
pub open spec fn fits(text: Seq<char>, start: int, end: int) -> bool {
    let bytes = encode_utf8(text);
    &&& 0 <= start <= end <= bytes.len()
    &&& is_char_boundary(bytes, start)
    &&& is_char_boundary(bytes, end)
}

/// Calls `Regex::new`. Whether the pattern compiles depends on its text alone; a
/// pattern that compiles is plain and remembers the text it was built from. Nothing is
/// claimed about which texts compile.
#[verifier::external_body]
pub(crate) fn compile(source: &str) -> (r: Result<Regex, regex::Error>)
    ensures
        (r is Ok) == pattern_compiles(source@),
        r matches Ok(re) ==> pattern_source(re) == source@,
        r matches Ok(re) ==> pattern_plain(re),
{
    Regex::new(source)
}

/// Calls `Regex::is_match`. Of a plain pattern the answer depends on the pattern's text
/// and on `text` alone.
#[verifier::external_body]
pub(crate) fn is_match(re: &Regex, text: &str) -> (r: bool)
    requires
        pattern_plain(*re),
    ensures
        r == pattern_accepts(pattern_source(*re), text@),
{
    re.is_match(text)
}

/// Calls `Regex::find` and hands out the match's `start()` and `end()`. Of a plain
/// pattern the place of the match depends on the pattern's text and on `text` alone. The
/// crate documents of every match that its start is not behind its end, that both are
/// byte offsets into `text`, and that both fall on character boundaries.
#[verifier::external_body]
pub(crate) fn find(re: &Regex, text: &str) -> (r: Option<(usize, usize)>)
    requires
        pattern_plain(*re),
    ensures
        span_of(r) == pattern_span(pattern_source(*re), text@),
        r matches Some((start, end)) ==> fits(text@, start as int, end as int),
{
    match re.find(text) {
        Some(m) => Some((m.start(), m.end())),
        None => None,
    }
}

/// A span of byte offsets, as integers.
pub open spec fn span_of(span: Option<(usize, usize)>) -> Option<(int, int)> {
    match span {
        Some((start, end)) => Some((start as int, end as int)),
        None => None,
    }
}

} // verus!
