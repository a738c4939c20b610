//! Taking a single punctuation mark off a fragment, around the place where the
//! punctuation pattern matched.

use crate::pattern::fits;
use crate::pattern::span_of;
use crate::token::Punctuation;
use crate::token::Token;
use crate::token::TokenView;
use crate::token::all_nonempty;
use crate::token::lemma_source_text_concat;
use crate::token::lemma_source_text_one;
use crate::token::source_text;
use crate::token::views;
use vstd::prelude::*;
use vstd::string::StrSliceExecFns;
use vstd::string::StringSliceAdditionalSpecFns;
use vstd::utf8::decode_utf8;
use vstd::utf8::encode_utf8;
use vstd::utf8::is_char_boundary;
use vstd::utf8::valid_utf8;

verus! {

/// The characters of `text` whose UTF-8 form lies between the byte offsets `from` and
/// `to`.
pub open spec fn piece(text: Seq<char>, from: int, to: int) -> Seq<char> {
    decode_utf8(encode_utf8(text).subrange(from, to))
}

/// A piece as a list of tokens: one unknown token, or none if the piece is empty.
pub open spec fn optional_fragment(text: Seq<char>) -> Seq<TokenView> {
    if text.len() > 0 {
        seq![TokenView::Unknown(text)]
    } else {
        Seq::empty()
    }
}

/// The tokens that a fragment gives, where `span` is the place of the match in it.
///
/// Without a match the fragment stays as it is, and so it does where the match is
/// anything but one single punctuation mark, or where the span is no place in the
/// fragment at all. Else the fragment is cut in three: what stands before the match, the
/// mark, and what stands after it; an empty piece is left out.
pub open spec fn separated(text: Seq<char>, span: Option<(int, int)>) -> Seq<TokenView> {
    match span {
        Some((start, end)) => {
            let matched = piece(text, start, end);
            if fits(text, start, end) && matched.len() == 1 && Punctuation::of_char(
                matched[0],
            ) is Some {
                optional_fragment(piece(text, 0, start)) + seq![
                    TokenView::Punctuation(Punctuation::of_char(matched[0]).unwrap()),
                ] + optional_fragment(piece(text, end, encode_utf8(text).len() as int))
            } else {
                seq![TokenView::Unknown(text)]
            }
        },
        None => seq![TokenView::Unknown(text)],
    }
}

/// A prefix that ends on a character boundary keeps the character boundaries inside it.
proof fn lemma_boundary_in_prefix(bytes: Seq<u8>, start: int, end: int)
    requires
        valid_utf8(bytes),
        0 <= start <= end <= bytes.len(),
        is_char_boundary(bytes, start),
        is_char_boundary(bytes, end),
    ensures
        valid_utf8(bytes.subrange(0, end)),
        is_char_boundary(bytes.subrange(0, end), start),
{
    let head = bytes.subrange(0, end);
    vstd::utf8::valid_utf8_split(bytes, end);
    if start == end {
        vstd::utf8::is_char_boundary_start_end_of_seq(head);
    } else {
        vstd::utf8::is_char_boundary_iff_not_is_continuation_byte(bytes, start);
        vstd::utf8::is_char_boundary_iff_not_is_continuation_byte(head, start);
    }
}

/// The three pieces around a span that fits give the text back.
pub proof fn lemma_pieces_join(text: Seq<char>, start: int, end: int)
    requires
        fits(text, start, end),
    ensures
        piece(text, 0, start) + piece(text, start, end) + piece(
            text,
            end,
            encode_utf8(text).len() as int,
        ) == text,
{
    let bytes = encode_utf8(text);
    let head = bytes.subrange(0, end);
    vstd::utf8::encode_utf8_valid_utf8(text);
    vstd::utf8::encode_utf8_decode_utf8(text);
    lemma_boundary_in_prefix(bytes, start, end);
    vstd::utf8::decode_utf8_split(bytes, end);
    vstd::utf8::decode_utf8_split(head, start);
    assert(head.subrange(0, start) == bytes.subrange(0, start));
    assert(head.subrange(start, head.len() as int) == bytes.subrange(start, end));
}

/// The tokens of one fragment keep its text.
pub proof fn lemma_separated_keeps_text(text: Seq<char>, span: Option<(int, int)>)
    ensures
        source_text(separated(text, span)) == text,
{
    lemma_source_text_one(TokenView::Unknown(text));
    if let Some((start, end)) = span {
        let matched = piece(text, start, end);
        if fits(text, start, end) && matched.len() == 1 && Punctuation::of_char(matched[0])
            is Some {
            let mark = TokenView::Punctuation(Punctuation::of_char(matched[0]).unwrap());
            let before = optional_fragment(piece(text, 0, start));
            let after = optional_fragment(piece(text, end, encode_utf8(text).len() as int));
            lemma_pieces_join(text, start, end);
            lemma_source_text_optional(piece(text, 0, start));
            lemma_source_text_optional(piece(text, end, encode_utf8(text).len() as int));
            lemma_source_text_one(mark);
            lemma_source_text_concat(before, seq![mark]);
            lemma_source_text_concat(before + seq![mark], after);
            assert(mark.text() == matched);
        }
    }
}

/// The tokens of a fragment that is not empty have no empty text.
pub proof fn lemma_separated_nonempty(text: Seq<char>, span: Option<(int, int)>)
    requires
        text.len() > 0,
    ensures
        all_nonempty(separated(text, span)),
{
}

proof fn lemma_source_text_optional(text: Seq<char>)
    ensures
        source_text(optional_fragment(text)) == text,
{
    if text.len() > 0 {
        lemma_source_text_one(TokenView::Unknown(text));
    } else {
        assert(text == Seq::<char>::empty());
    }
}

/// Cuts `text` at a byte offset that falls on a character boundary.
fn cut<'a>(text: &'a str, at: usize) -> (r: (&'a str, &'a str))
    requires
        is_char_boundary(text.spec_bytes(), at as int),
        at <= text.spec_bytes().len(),
    ensures
        r.0@ == piece(text@, 0, at as int),
        r.1@ == piece(text@, at as int, text.spec_bytes().len() as int),
        r.0.spec_bytes() == text.spec_bytes().subrange(0, at as int),
{
    let r = text.split_at(at);
    proof {
        vstd::utf8::encode_utf8_decode_utf8(r.0@);
        vstd::utf8::encode_utf8_decode_utf8(r.1@);
    }
    r
}

/// Cuts the fragment `text` around the match from byte `start` to byte `end`, and
/// returns the tokens that it gives.
pub(crate) fn cut_fragment(text: &str, start: usize, end: usize) -> (r: Vec<Token>)
    requires
        fits(text@, start as int, end as int),
    ensures
        views(r@) == separated(text@, Some((start as int, end as int))),
{
    proof {
        vstd::utf8::encode_utf8_valid_utf8(text@);
        lemma_boundary_in_prefix(text.spec_bytes(), start as int, end as int);
    }
    let (head, after) = cut(text, end);
    let (before, matched) = cut(head, start);
    assert(head.spec_bytes().subrange(0, start as int) == text.spec_bytes().subrange(
        0,
        start as int,
    ));
    assert(head.spec_bytes().subrange(start as int, head.spec_bytes().len() as int)
        == text.spec_bytes().subrange(start as int, end as int));
    let mark = if matched.unicode_len() == 1 {
        Punctuation::from_char(matched.get_char(0))
    } else {
        None
    };
    let mut tokens: Vec<Token> = Vec::new();
    match mark {
        Some(mark) => {
            if !before.is_empty() {
                tokens.push(Token::Unknown(before.to_owned()));
            }
            tokens.push(Token::Punctuation(mark));
            if !after.is_empty() {
                tokens.push(Token::Unknown(after.to_owned()));
            }
        },
        None => {
            tokens.push(Token::Unknown(text.to_owned()));
        },
    }
    assert(views(tokens@) =~= separated(text@, Some((start as int, end as int))));
    tokens
}

/// Cuts the fragment `text` around `span`, the place where the punctuation pattern
/// matched in it, and returns the tokens that it gives.
pub(crate) fn separate_match(text: &str, span: Option<(usize, usize)>) -> (r: Vec<Token>)
    requires
        span matches Some((start, end)) ==> fits(text@, start as int, end as int),
    ensures
        views(r@) == separated(text@, span_of(span)),
{
    match span {
        Some((start, end)) => cut_fragment(text, start, end),
        None => {
            let tokens = vec![Token::Unknown(text.to_owned())];
            assert(views(tokens@) =~= separated(text@, span_of(span)));
            tokens
        },
    }
}

/// Cuts the fragment `text` around `span`, whatever span it is given. A span that is no
/// place in the fragment, as no match gives one, leaves the fragment as it is.
pub fn separate_fragment(text: &str, span: Option<(usize, usize)>) -> (r: Vec<Token>)
    ensures
        views(r@) == separated(text@, span_of(span)),
{
    let place = match span {
        Some((start, end)) => {
            if start <= end && end <= text.as_bytes().len() && text.is_char_boundary(start)
                && text.is_char_boundary(end) {
                span
            } else {
                None
            }
        },
        None => None,
    };
    separate_match(text, place)
}

} // verus!
