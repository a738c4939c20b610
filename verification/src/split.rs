//! Cutting a sentence into fragments at whitespace.

use crate::token::source_text;
use crate::token::views;
use crate::token::Token;
use crate::token::TokenView;
use vstd::prelude::*;
use vstd::std_specs::iter::IteratorSpec;

verus! {

/// Whether a character is whitespace: whether it has the Unicode property White_Space,
/// which is what `char::is_whitespace` tests. These are the control characters from tab
/// to carriage return, the space, the next-line control, the no-break space, the ogham
/// space mark, the spaces of fixed width from en quad to hair space, the line and the
/// paragraph separator, the narrow no-break space, the medium mathematical space and the
/// ideographic space.
pub open spec fn is_whitespace(c: char) -> bool {
    let code = c as u32;
    ||| 0x0009 <= code <= 0x000D
    ||| code == 0x0020
    ||| code == 0x0085
    ||| code == 0x00A0
    ||| code == 0x1680
    ||| 0x2000 <= code <= 0x200A
    ||| code == 0x2028
    ||| code == 0x2029
    ||| code == 0x202F
    ||| code == 0x205F
    ||| code == 0x3000
}

/// Calls `char::is_whitespace`, which tests the Unicode property White_Space: the
/// characters that `is_whitespace` lists.
#[verifier::external_body]
pub(crate) fn whitespace(c: char) -> (r: bool)
    ensures
        r == is_whitespace(c),
{
    c.is_whitespace()
}

/// `String::push` appends the character to the end of the string.
pub assume_specification[ String::push ](s: &mut String, c: char)
    ensures
        final(s)@ == old(s)@.push(c),
;

/// The state of a scan after the characters of `text`: the fragments that are closed, and
/// the characters of the fragment that is still open (empty if none is).
pub open spec fn scan(text: Seq<char>) -> (Seq<Seq<char>>, Seq<char>)
    decreases text.len(),
{
    if text.len() == 0 {
        (Seq::empty(), Seq::empty())
    } else {
        let (closed, open) = scan(text.drop_last());
        if !is_whitespace(text.last()) {
            (closed, open.push(text.last()))
        } else if open.len() > 0 {
            (closed.push(open), Seq::empty())
        } else {
            (closed, open)
        }
    }
}

/// The fragments of `text`: its longest runs of characters that are not whitespace, in
/// order.
pub open spec fn fragments(text: Seq<char>) -> Seq<Seq<char>> {
    let (closed, open) = scan(text);
    if open.len() > 0 {
        closed.push(open)
    } else {
        closed
    }
}

/// The characters of `text` that are not whitespace, in order.
pub open spec fn non_whitespace(text: Seq<char>) -> Seq<char> {
    text.filter(|c: char| !is_whitespace(c))
}

/// The pieces of a sequence joined in order.
pub open spec fn joined(pieces: Seq<Seq<char>>) -> Seq<char>
    decreases pieces.len(),
{
    if pieces.len() == 0 {
        Seq::empty()
    } else {
        joined(pieces.drop_last()) + pieces.last()
    }
}

/// Each fragment as an unknown token.
pub open spec fn unknown_tokens(pieces: Seq<Seq<char>>) -> Seq<TokenView> {
    pieces.map_values(|f: Seq<char>| TokenView::Unknown(f))
}

/// A piece without a whitespace character in it.
pub open spec fn solid(piece: Seq<char>) -> bool {
    forall|j: int| 0 <= j < piece.len() ==> !is_whitespace(#[trigger] piece[j])
}

/// The closed fragments of a scan, then the open one, hold the characters seen that are
/// not whitespace; no closed fragment is empty, and no fragment holds whitespace.
proof fn lemma_scan(text: Seq<char>)
    ensures
        joined(scan(text).0) + scan(text).1 == non_whitespace(text),
        forall|i: int| 0 <= i < scan(text).0.len() ==> (#[trigger] scan(text).0[i]).len() > 0,
        forall|i: int| 0 <= i < scan(text).0.len() ==> solid(#[trigger] scan(text).0[i]),
        solid(scan(text).1),
    decreases text.len(),
{
    reveal(Seq::filter);
    if text.len() > 0 {
        lemma_scan(text.drop_last());
        let (closed, open) = scan(text.drop_last());
        if is_whitespace(text.last()) && open.len() > 0 {
            assert(closed.push(open).drop_last() == closed);
        }
    }
}

/// The fragments of a text, joined, are its characters that are not whitespace.
pub proof fn lemma_fragments_join(text: Seq<char>)
    ensures
        joined(fragments(text)) == non_whitespace(text),
{
    lemma_scan(text);
    let (closed, open) = scan(text);
    if open.len() > 0 {
        assert(closed.push(open).drop_last() == closed);
    }
}

/// No fragment is empty, and none holds a whitespace character.
pub proof fn lemma_fragments_are_runs(text: Seq<char>)
    ensures
        forall|i: int| 0 <= i < fragments(text).len() ==> (#[trigger] fragments(text)[i]).len() > 0,
        forall|i: int| 0 <= i < fragments(text).len() ==> solid(#[trigger] fragments(text)[i]),
{
    lemma_scan(text);
}

/// A text of whitespace alone has no fragments.
pub proof fn lemma_whitespace_has_no_fragments(text: Seq<char>)
    requires
        forall|i: int| 0 <= i < text.len() ==> is_whitespace(#[trigger] text[i]),
    ensures
        scan(text) == (Seq::<Seq<char>>::empty(), Seq::<char>::empty()),
        fragments(text).len() == 0,
    decreases text.len(),
{
    if text.len() > 0 {
        lemma_whitespace_has_no_fragments(text.drop_last());
    }
}

/// The text of fragments taken as unknown tokens is the fragments joined.
pub proof fn lemma_unknown_tokens_text(pieces: Seq<Seq<char>>)
    ensures
        source_text(unknown_tokens(pieces)) == joined(pieces),
    decreases pieces.len(),
{
    if pieces.len() > 0 {
        lemma_unknown_tokens_text(pieces.drop_last());
        assert(unknown_tokens(pieces).drop_last() == unknown_tokens(pieces.drop_last()));
    }
}

/// Cuts `text` at whitespace and returns the fragments between as unknown tokens, leaving
/// out empty ones.
pub fn split_fragments(text: &str) -> (r: Vec<Token>)
    ensures
        views(r@) == unknown_tokens(fragments(text@)),
{
    let mut closed: Vec<Token> = Vec::new();
    let mut open = String::new();
    let ghost mut seen: Seq<char> = Seq::empty();
    assert(views(closed@) == unknown_tokens(scan(seen).0));
    for c in it: text.chars()
        invariant
            it.seq() == text@,
            seen == text@.take(it.index() as int),
            views(closed@) == unknown_tokens(scan(seen).0),
            open@ == scan(seen).1,
    {
        proof {
            let next = seen.push(c);
            assert(next.drop_last() == seen);
            assert(next == text@.take(it.index() + 1));
            seen = next;
        }
        if !whitespace(c) {
            open.push(c);
        } else if !open.as_str().is_empty() {
            let ghost before = views(closed@);
            closed.push(Token::Unknown(open));
            open = String::new();
            assert(views(closed@) == before.push(closed@.last()@));
            assert(views(closed@) == unknown_tokens(scan(seen).0));
        }
    }
    assert(seen == text@);
    if !open.as_str().is_empty() {
        let ghost before = views(closed@);
        closed.push(Token::Unknown(open));
        assert(views(closed@) == before.push(closed@.last()@));
    }
    assert(views(closed@) == unknown_tokens(fragments(text@)));
    closed
}

} // verus!
