//! The data model: punctuation marks, tokens, and their mathematical views.

use vstd::prelude::*;

verus! {

/// Punctuation marks.
#[derive(Clone, Copy, Debug, PartialEq, Eq, Structural)]
pub enum Punctuation {
    /// Colon: ':'
    Colon,
    /// Comma: ','
    Comma,
    /// Dash: '-'
    Dash,
    /// Exclamation: '!'
    Exclamation,
    /// Period: '.'
    Period,
    /// Question: '?'
    Question,
    /// Semicolon: ';'
    Semicolon,
}

impl Punctuation {
    /// The one character that a mark stands for.
    pub open spec fn symbol(self) -> char {
        match self {
            Punctuation::Colon => ':',
            Punctuation::Comma => ',',
            Punctuation::Dash => '-',
            Punctuation::Exclamation => '!',
            Punctuation::Period => '.',
            Punctuation::Question => '?',
            Punctuation::Semicolon => ';',
        }
    }

    /// The mark that a character stands for, if it is one of the seven.
    pub open spec fn of_char(c: char) -> Option<Punctuation> {
        if c == ':' {
            Some(Punctuation::Colon)
        } else if c == ',' {
            Some(Punctuation::Comma)
        } else if c == '-' {
            Some(Punctuation::Dash)
        } else if c == '!' {
            Some(Punctuation::Exclamation)
        } else if c == '.' {
            Some(Punctuation::Period)
        } else if c == '?' {
            Some(Punctuation::Question)
        } else if c == ';' {
            Some(Punctuation::Semicolon)
        } else {
            None
        }
    }

    /// Reads a character as a punctuation mark.
    pub fn from_char(c: char) -> (r: Option<Punctuation>)
        ensures
            r == Punctuation::of_char(c),
            r matches Some(mark) ==> mark.symbol() == c,
    {
        if c == ':' {
            Some(Punctuation::Colon)
        } else if c == ',' {
            Some(Punctuation::Comma)
        } else if c == '-' {
            Some(Punctuation::Dash)
        } else if c == '!' {
            Some(Punctuation::Exclamation)
        } else if c == '.' {
            Some(Punctuation::Period)
        } else if c == '?' {
            Some(Punctuation::Question)
        } else if c == ';' {
            Some(Punctuation::Semicolon)
        } else {
            None
        }
    }
}

/// A parsed token. Every variant but `Punctuation` carries the exact piece of the input
/// that it was read from.
#[derive(Clone, Debug, PartialEq)]
pub enum Token {
    /// An integer with comma separators, such as "1,000,000".
    CommaFormattedInteger(String),
    /// A real number with comma separators, such as "1,234.56".
    CommaFormattedRealNumber(String),
    /// A hashtag: '#' and word characters.
    Hashtag(String),
    /// Runs of letters joined by hyphens.
    HyphenatedWord(String),
    /// A run of digits.
    Integer(String),
    /// A punctuation mark.
    Punctuation(Punctuation),
    /// Digits, a dot, digits.
    RealNumber(String),
    /// A link that starts with http:// or https://.
    Url(String),
    /// A mention: '@' and word characters.
    UsernameMention(String),
    /// A run of word characters.
    Word(String),
    /// A fragment that fits no other variant.
    Unknown(String),
}

/// What a token is, with its text as a sequence of characters.
pub enum TokenView {
    CommaFormattedInteger(Seq<char>),
    CommaFormattedRealNumber(Seq<char>),
    Hashtag(Seq<char>),
    HyphenatedWord(Seq<char>),
    Integer(Seq<char>),
    Punctuation(Punctuation),
    RealNumber(Seq<char>),
    Url(Seq<char>),
    UsernameMention(Seq<char>),
    Word(Seq<char>),
    Unknown(Seq<char>),
}

impl TokenView {
    /// The piece of the input that the token was read from.
    pub open spec fn text(self) -> Seq<char> {
        match self {
            TokenView::CommaFormattedInteger(s) => s,
            TokenView::CommaFormattedRealNumber(s) => s,
            TokenView::Hashtag(s) => s,
            TokenView::HyphenatedWord(s) => s,
            TokenView::Integer(s) => s,
            TokenView::Punctuation(mark) => seq![mark.symbol()],
            TokenView::RealNumber(s) => s,
            TokenView::Url(s) => s,
            TokenView::UsernameMention(s) => s,
            TokenView::Word(s) => s,
            TokenView::Unknown(s) => s,
        }
    }
}

impl View for Token {
    type V = TokenView;

    open spec fn view(&self) -> TokenView {
        match self {
            Token::CommaFormattedInteger(s) => TokenView::CommaFormattedInteger(s@),
            Token::CommaFormattedRealNumber(s) => TokenView::CommaFormattedRealNumber(s@),
            Token::Hashtag(s) => TokenView::Hashtag(s@),
            Token::HyphenatedWord(s) => TokenView::HyphenatedWord(s@),
            Token::Integer(s) => TokenView::Integer(s@),
            Token::Punctuation(mark) => TokenView::Punctuation(*mark),
            Token::RealNumber(s) => TokenView::RealNumber(s@),
            Token::Url(s) => TokenView::Url(s@),
            Token::UsernameMention(s) => TokenView::UsernameMention(s@),
            Token::Word(s) => TokenView::Word(s@),
            Token::Unknown(s) => TokenView::Unknown(s@),
        }
    }
}

impl Token {
    /// A copy of the token. The verifier knows nothing of the derived `clone`; of this
    /// one it knows that the copy has the same view.
    pub fn duplicate(&self) -> (r: Token)
        ensures
            r@ == self@,
    {
        match self {
            Token::CommaFormattedInteger(s) => Token::CommaFormattedInteger(s.clone()),
            Token::CommaFormattedRealNumber(s) => Token::CommaFormattedRealNumber(s.clone()),
            Token::Hashtag(s) => Token::Hashtag(s.clone()),
            Token::HyphenatedWord(s) => Token::HyphenatedWord(s.clone()),
            Token::Integer(s) => Token::Integer(s.clone()),
            Token::Punctuation(mark) => Token::Punctuation(*mark),
            Token::RealNumber(s) => Token::RealNumber(s.clone()),
            Token::Url(s) => Token::Url(s.clone()),
            Token::UsernameMention(s) => Token::UsernameMention(s.clone()),
            Token::Word(s) => Token::Word(s.clone()),
            Token::Unknown(s) => Token::Unknown(s.clone()),
        }
    }
}

/// The views of a sequence of tokens, in order.
pub open spec fn views(tokens: Seq<Token>) -> Seq<TokenView> {
    tokens.map_values(|t: Token| t@)
}

/// The texts of a sequence of tokens, joined in order.
pub open spec fn source_text(tokens: Seq<TokenView>) -> Seq<char>
    decreases tokens.len(),
{
    if tokens.len() == 0 {
        Seq::empty()
    } else {
        source_text(tokens.drop_last()) + tokens.last().text()
    }
}

/// The text of a single token.
pub proof fn lemma_source_text_one(t: TokenView)
    ensures
        source_text(seq![t]) == t.text(),
{
    reveal_with_fuel(source_text, 2);
    assert(seq![t].drop_last() == Seq::<TokenView>::empty());
}

/// The text of two sequences in a row is the two texts in a row.
pub proof fn lemma_source_text_concat(a: Seq<TokenView>, b: Seq<TokenView>)
    ensures
        source_text(a + b) == source_text(a) + source_text(b),
    decreases b.len(),
{
    if b.len() == 0 {
        assert(a + b == a);
    } else {
        lemma_source_text_concat(a, b.drop_last());
        assert((a + b).drop_last() == a + b.drop_last());
        assert((a + b).last() == b.last());
    }
}

/// Two sequences of tokens of one length, with the same text at each place.
pub open spec fn same_texts(a: Seq<TokenView>, b: Seq<TokenView>) -> bool {
    &&& a.len() == b.len()
    &&& forall|i: int| 0 <= i < a.len() ==> (#[trigger] a[i]).text() == b[i].text()
}

/// Sequences with the same text at each place have the same text as a whole.
pub proof fn lemma_same_texts(a: Seq<TokenView>, b: Seq<TokenView>)
    requires
        same_texts(a, b),
    ensures
        source_text(a) == source_text(b),
    decreases a.len(),
{
    if a.len() > 0 {
        lemma_same_texts(a.drop_last(), b.drop_last());
    }
}

/// No token of the sequence has an empty text.
pub open spec fn all_nonempty(tokens: Seq<TokenView>) -> bool {
    forall|i: int| 0 <= i < tokens.len() ==> (#[trigger] tokens[i]).text().len() > 0
}

} // verus!
