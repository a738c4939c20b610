//! The rules that turn a fragment into a typed token, once it is known which shapes the
//! fragment has. Within each family the shapes are tried in a fixed order and the first
//! that fits decides.

use crate::token::Token;
use crate::token::TokenView;
use vstd::prelude::*;

verus! {

/// The token for a fragment by its numeric shapes: a plain real number first, then a
/// plain integer, a comma-grouped real, a comma-grouped integer. A fragment with none of
/// these shapes stays unknown.
pub open spec fn number_token(
    text: Seq<char>,
    plain_real: bool,
    plain_integer: bool,
    comma_real: bool,
    comma_integer: bool,
) -> TokenView {
    if plain_real {
        TokenView::RealNumber(text)
    } else if plain_integer {
        TokenView::Integer(text)
    } else if comma_real {
        TokenView::CommaFormattedRealNumber(text)
    } else if comma_integer {
        TokenView::CommaFormattedInteger(text)
    } else {
        TokenView::Unknown(text)
    }
}

/// The token for a fragment by its lexical shapes: a link first, then a hashtag, a
/// mention, a plain word, a hyphenated word. A fragment with none of these shapes stays
/// unknown.
pub open spec fn lexical_token(
    text: Seq<char>,
    url: bool,
    hashtag: bool,
    mention: bool,
    word: bool,
    hyphenated: bool,
) -> TokenView {
    if url {
        TokenView::Url(text)
    } else if hashtag {
        TokenView::Hashtag(text)
    } else if mention {
        TokenView::UsernameMention(text)
    } else if word {
        TokenView::Word(text)
    } else if hyphenated {
        TokenView::HyphenatedWord(text)
    } else {
        TokenView::Unknown(text)
    }
}

/// Builds the token for a fragment from the answers of the four numeric patterns.
pub fn classify_number(
    text: String,
    plain_real: bool,
    plain_integer: bool,
    comma_real: bool,
    comma_integer: bool,
) -> (r: Token)
    ensures
        r@ == number_token(text@, plain_real, plain_integer, comma_real, comma_integer),
{
    if plain_real {
        Token::RealNumber(text)
    } else if plain_integer {
        Token::Integer(text)
    } else if comma_real {
        Token::CommaFormattedRealNumber(text)
    } else if comma_integer {
        Token::CommaFormattedInteger(text)
    } else {
        Token::Unknown(text)
    }
}

/// Builds the token for a fragment from the answers of the five lexical patterns.
pub fn classify_word(
    text: String,
    url: bool,
    hashtag: bool,
    mention: bool,
    word: bool,
    hyphenated: bool,
) -> (r: Token)
    ensures
        r@ == lexical_token(text@, url, hashtag, mention, word, hyphenated),
{
    if url {
        Token::Url(text)
    } else if hashtag {
        Token::Hashtag(text)
    } else if mention {
        Token::UsernameMention(text)
    } else if word {
        Token::Word(text)
    } else if hyphenated {
        Token::HyphenatedWord(text)
    } else {
        Token::Unknown(text)
    }
}

} // verus!
