//! The tokenizer: the patterns it holds and the passes it runs over a sentence.

use crate::classify::classify_number;
use crate::classify::classify_word;
use crate::classify::lexical_token;
use crate::classify::number_token;
use crate::pattern::compile;
use crate::pattern::find;
use crate::pattern::is_match;
use crate::pattern::fits;
use crate::pattern::pattern_accepts;
use crate::pattern::pattern_compiles;
use crate::pattern::pattern_plain;
use crate::pattern::pattern_source;
use crate::pattern::pattern_span;
use crate::pattern::span_of;
use crate::punctuate::lemma_separated_keeps_text;
use crate::punctuate::lemma_separated_nonempty;
use crate::punctuate::separate_match;
use crate::punctuate::separated;
use crate::split::fragments;
use crate::split::is_whitespace;
use crate::split::lemma_fragments_join;
use crate::split::lemma_fragments_are_runs;
use crate::split::lemma_unknown_tokens_text;
use crate::split::lemma_whitespace_has_no_fragments;
use crate::split::non_whitespace;
use crate::split::split_fragments;
use crate::split::unknown_tokens;
use crate::token::all_nonempty;
use crate::token::lemma_same_texts;
use crate::token::lemma_source_text_concat;
use crate::token::lemma_source_text_one;
use crate::token::same_texts;
use crate::token::source_text;
use crate::token::views;
use crate::token::Token;
use crate::token::TokenView;
use regex::Regex;
use vstd::prelude::*;

verus! {

/// A run of punctuation characters at the end of a fragment.
pub const PUNCTUATION_PATTERN: &'static str = r"([\.\?\-:!,;]+)$";

/// Digits, a dot, digits.
pub const REAL_PATTERN: &'static str = r"^\d+\.\d+$";

/// Digits only.
pub const INTEGER_PATTERN: &'static str = r"^\d+$";

/// Groups of digits closed by a comma, then digits, a dot, digits.
pub const COMMA_REAL_PATTERN: &'static str = r"^(\d+,)+\d+\.\d+$";

/// Groups of digits closed by a comma, then digits.
pub const COMMA_INTEGER_PATTERN: &'static str = r"^(\d+,)+\d+$";

/// A scheme, host labels joined by dots, and an optional path.
pub const URL_PATTERN: &'static str = r"^http(s)?://(\w+\.)+(\w+)/?([\w/#\?&=\.])*$";

/// '#' and word characters.
pub const HASHTAG_PATTERN: &'static str = r"^#\w+$";

/// '@' and word characters.
pub const USERNAME_PATTERN: &'static str = r"^@\w+$";

/// Word characters only.
pub const WORD_PATTERN: &'static str = r"^\w+$";

/// Runs of letters joined by hyphens.
pub const HYPHENATED_WORD_PATTERN: &'static str = r"^([A-Za-z]+\-)+[A-Za-z]+$";

/// Sentence tokenizer. It holds the compiled patterns and no other state.
///
/// A pattern that did not compile is absent, and an absent pattern matches nothing;
/// `is_complete` tells whether all are there.
pub struct SentenceTokenizer {
    punctuation: Option<Regex>,
    real: Option<Regex>,
    integer: Option<Regex>,
    comma_real: Option<Regex>,
    comma_integer: Option<Regex>,
    url: Option<Regex>,
    hashtag: Option<Regex>,
    username: Option<Regex>,
    word: Option<Regex>,
    hyphenated_word: Option<Regex>,
}

/// The rule is what compiling `source` gives: it is there exactly if `source` compiles,
/// and then it is a plain pattern compiled from `source`.
pub open spec fn made_from(rule: Option<Regex>, source: Seq<char>) -> bool {
    &&& (rule is Some) == pattern_compiles(source)
    &&& rule matches Some(re) ==> pattern_source(re) == source
    &&& rule matches Some(re) ==> pattern_plain(re)
}

/// The pattern written as `source` compiles and matches in `text`.
pub open spec fn accepted(source: Seq<char>, text: Seq<char>) -> bool {
    pattern_compiles(source) && pattern_accepts(source, text)
}

/// All the patterns of the tokenizer compile.
pub open spec fn all_compile() -> bool {
    &&& pattern_compiles(PUNCTUATION_PATTERN@)
    &&& pattern_compiles(REAL_PATTERN@)
    &&& pattern_compiles(INTEGER_PATTERN@)
    &&& pattern_compiles(COMMA_REAL_PATTERN@)
    &&& pattern_compiles(COMMA_INTEGER_PATTERN@)
    &&& pattern_compiles(URL_PATTERN@)
    &&& pattern_compiles(HASHTAG_PATTERN@)
    &&& pattern_compiles(USERNAME_PATTERN@)
    &&& pattern_compiles(WORD_PATTERN@)
    &&& pattern_compiles(HYPHENATED_WORD_PATTERN@)
}

/// Compiles one pattern: the rule is there exactly if the pattern compiles.
fn rule_for(source: &str) -> (r: Option<Regex>)
    ensures
        made_from(r, source@),
{
    let compiled = compile(source);
    rule_of(compiled)
}

/// Asks a rule whether it matches in `text`.
fn accepts(rule: &Option<Regex>, text: &str) -> (r: bool)
    requires
        *rule matches Some(re) ==> pattern_plain(re),
    ensures
        r == (*rule matches Some(re) && pattern_accepts(pattern_source(re), text@)),
{
    match rule {
        Some(re) => is_match(re, text),
        None => false,
    }
}

impl SentenceTokenizer {
    /// Each rule is what compiling its own pattern gives.
    #[verifier::type_invariant]
    pub closed spec fn wf(&self) -> bool {
        &&& made_from(self.punctuation, PUNCTUATION_PATTERN@)
        &&& made_from(self.real, REAL_PATTERN@)
        &&& made_from(self.integer, INTEGER_PATTERN@)
        &&& made_from(self.comma_real, COMMA_REAL_PATTERN@)
        &&& made_from(self.comma_integer, COMMA_INTEGER_PATTERN@)
        &&& made_from(self.url, URL_PATTERN@)
        &&& made_from(self.hashtag, HASHTAG_PATTERN@)
        &&& made_from(self.username, USERNAME_PATTERN@)
        &&& made_from(self.word, WORD_PATTERN@)
        &&& made_from(self.hyphenated_word, HYPHENATED_WORD_PATTERN@)
    }

    /// Every rule is there.
    pub closed spec fn complete(&self) -> bool {
        &&& self.punctuation is Some
        &&& self.real is Some
        &&& self.integer is Some
        &&& self.comma_real is Some
        &&& self.comma_integer is Some
        &&& self.url is Some
        &&& self.hashtag is Some
        &&& self.username is Some
        &&& self.word is Some
        &&& self.hyphenated_word is Some
    }

    /// Where the punctuation pattern matches in `text`, if it does.
    pub open spec fn punctuation_span(&self, text: Seq<char>) -> Option<(int, int)> {
        if pattern_compiles(PUNCTUATION_PATTERN@) {
            pattern_span(PUNCTUATION_PATTERN@, text)
        } else {
            None
        }
    }

    /// `text` is digits, a dot, digits.
    pub open spec fn is_real(&self, text: Seq<char>) -> bool {
        accepted(REAL_PATTERN@, text)
    }

    /// `text` is digits only.
    pub open spec fn is_integer(&self, text: Seq<char>) -> bool {
        accepted(INTEGER_PATTERN@, text)
    }

    /// `text` is a real number with comma-closed groups of digits before it.
    pub open spec fn is_comma_real(&self, text: Seq<char>) -> bool {
        accepted(COMMA_REAL_PATTERN@, text)
    }

    /// `text` is an integer with comma-closed groups of digits before it.
    pub open spec fn is_comma_integer(&self, text: Seq<char>) -> bool {
        accepted(COMMA_INTEGER_PATTERN@, text)
    }

    /// `text` is a link.
    pub open spec fn is_url(&self, text: Seq<char>) -> bool {
        accepted(URL_PATTERN@, text)
    }

    /// `text` is a hashtag.
    pub open spec fn is_hashtag(&self, text: Seq<char>) -> bool {
        accepted(HASHTAG_PATTERN@, text)
    }

    /// `text` is a mention.
    pub open spec fn is_username(&self, text: Seq<char>) -> bool {
        accepted(USERNAME_PATTERN@, text)
    }

    /// `text` is a plain word.
    pub open spec fn is_word(&self, text: Seq<char>) -> bool {
        accepted(WORD_PATTERN@, text)
    }

    /// `text` is a hyphenated word.
    pub open spec fn is_hyphenated_word(&self, text: Seq<char>) -> bool {
        accepted(HYPHENATED_WORD_PATTERN@, text)
    }

    /// What the punctuation pass makes of one token: an unknown fragment is cut around
    /// its trailing mark, any other token stays.
    pub open spec fn punctuated(&self, token: TokenView) -> Seq<TokenView> {
        match token {
            TokenView::Unknown(text) => separated(text, self.punctuation_span(text)),
            _ => seq![token],
        }
    }

    /// What the punctuation pass makes of a sequence of tokens.
    pub open spec fn punctuated_all(&self, tokens: Seq<TokenView>) -> Seq<TokenView>
        decreases tokens.len(),
    {
        if tokens.len() == 0 {
            Seq::empty()
        } else {
            self.punctuated_all(tokens.drop_last()) + self.punctuated(tokens.last())
        }
    }

    /// What the number pass makes of one token.
    pub open spec fn numbered(&self, token: TokenView) -> TokenView {
        match token {
            TokenView::Unknown(text) => number_token(
                text,
                self.is_real(text),
                self.is_integer(text),
                self.is_comma_real(text),
                self.is_comma_integer(text),
            ),
            _ => token,
        }
    }

    /// What the lexical pass makes of one token.
    pub open spec fn worded(&self, token: TokenView) -> TokenView {
        match token {
            TokenView::Unknown(text) => lexical_token(
                text,
                self.is_url(text),
                self.is_hashtag(text),
                self.is_username(text),
                self.is_word(text),
                self.is_hyphenated_word(text),
            ),
            _ => token,
        }
    }

    /// The tokens of a sentence: its fragments, each cut around its trailing mark, and
    /// each piece classified as a number first and lexically second.
    pub open spec fn tokens_of(&self, text: Seq<char>) -> Seq<TokenView> {
        self.punctuated_all(unknown_tokens(fragments(text)))
            .map_values(|t: TokenView| self.worded(self.numbered(t)))
    }

    /// Constructor. Compiles each pattern and keeps what came of it as its rule: a rule
    /// is there exactly if its pattern compiles. So any two tokenizers hold the same
    /// rules.
    pub fn new() -> (r: Self)
        ensures
            r.wf(),
            r.complete() == all_compile(),
    {
        Self::with_rules(
            rule_for(PUNCTUATION_PATTERN),
            rule_for(REAL_PATTERN),
            rule_for(INTEGER_PATTERN),
            rule_for(COMMA_REAL_PATTERN),
            rule_for(COMMA_INTEGER_PATTERN),
            rule_for(URL_PATTERN),
            rule_for(HASHTAG_PATTERN),
            rule_for(USERNAME_PATTERN),
            rule_for(WORD_PATTERN),
            rule_for(HYPHENATED_WORD_PATTERN),
        )
    }

    /// The tokenizer that holds exactly the given rules, each in its own place.
    fn with_rules(
        punctuation: Option<Regex>,
        plain_real: Option<Regex>,
        plain_integer: Option<Regex>,
        comma_real: Option<Regex>,
        comma_integer: Option<Regex>,
        url: Option<Regex>,
        hashtag: Option<Regex>,
        username: Option<Regex>,
        word: Option<Regex>,
        hyphenated_word: Option<Regex>,
    ) -> (r: Self)
        requires
            made_from(punctuation, PUNCTUATION_PATTERN@),
            made_from(plain_real, REAL_PATTERN@),
            made_from(plain_integer, INTEGER_PATTERN@),
            made_from(comma_real, COMMA_REAL_PATTERN@),
            made_from(comma_integer, COMMA_INTEGER_PATTERN@),
            made_from(url, URL_PATTERN@),
            made_from(hashtag, HASHTAG_PATTERN@),
            made_from(username, USERNAME_PATTERN@),
            made_from(word, WORD_PATTERN@),
            made_from(hyphenated_word, HYPHENATED_WORD_PATTERN@),
        ensures
            r.wf(),
            r.punctuation == punctuation,
            r.real == plain_real,
            r.integer == plain_integer,
            r.comma_real == comma_real,
            r.comma_integer == comma_integer,
            r.url == url,
            r.hashtag == hashtag,
            r.username == username,
            r.word == word,
            r.hyphenated_word == hyphenated_word,
            r.complete() == (punctuation is Some && plain_real is Some && plain_integer is Some
                && comma_real is Some && comma_integer is Some && url is Some && hashtag is Some
                && username is Some && word is Some && hyphenated_word is Some),
    {
        SentenceTokenizer {
            punctuation,
            real: plain_real,
            integer: plain_integer,
            comma_real,
            comma_integer,
            url,
            hashtag,
            username,
            word,
            hyphenated_word,
        }
    }

    /// Looks for a run of punctuation at the end of `text`.
    fn find_punctuation(&self, text: &str) -> (r: Option<(usize, usize)>)
        ensures
            span_of(r) == self.punctuation_span(text@),
            r matches Some((start, end)) ==> fits(text@, start as int, end as int),
    {
        proof {
            use_type_invariant(self);
        }
        match &self.punctuation {
            Some(re) => find(re, text),
            None => None,
        }
    }

    /// The token for a fragment by its numeric shape.
    fn number_for(&self, text: &String) -> (r: Token)
        ensures
            r@ == self.numbered(TokenView::Unknown(text@)),
    {
        proof {
            use_type_invariant(self);
        }
        let plain_real = accepts(&self.real, text.as_str());
        let plain_integer = !plain_real && accepts(&self.integer, text.as_str());
        let comma_real = !plain_real && !plain_integer && accepts(&self.comma_real, text.as_str());
        let comma_integer = !plain_real && !plain_integer && !comma_real && accepts(
            &self.comma_integer,
            text.as_str(),
        );
        classify_number(text.clone(), plain_real, plain_integer, comma_real, comma_integer)
    }

    /// The token for a fragment by its lexical shape.
    fn word_for(&self, text: &String) -> (r: Token)
        ensures
            r@ == self.worded(TokenView::Unknown(text@)),
    {
        proof {
            use_type_invariant(self);
        }
        let url = accepts(&self.url, text.as_str());
        let hashtag = !url && accepts(&self.hashtag, text.as_str());
        let mention = !url && !hashtag && accepts(&self.username, text.as_str());
        let word = !url && !hashtag && !mention && accepts(&self.word, text.as_str());
        let hyphenated = !url && !hashtag && !mention && !word && accepts(
            &self.hyphenated_word,
            text.as_str(),
        );
        classify_word(text.clone(), url, hashtag, mention, word, hyphenated)
    }

    /// Replaces each unknown token that ends in a single punctuation mark by the text
    /// before the mark, if there is any, and the mark. Other tokens stay, and the order
    /// stays.
    pub fn separate_end_punctuation(&self, tokens: &mut Vec<Token>)
        ensures
            views(final(tokens)@) == self.punctuated_all(views(old(tokens)@)),
            source_text(views(final(tokens)@)) == source_text(views(old(tokens)@)),
            all_nonempty(views(old(tokens)@)) ==> all_nonempty(views(final(tokens)@)),
            final(tokens)@.len() >= old(tokens)@.len(),
    {
        let ghost given = views(tokens@);
        let mut out: Vec<Token> = Vec::new();
        let mut i: usize = 0;
        while i < tokens.len()
            invariant
                i <= tokens.len(),
                given == views(tokens@),
                views(out@) == self.punctuated_all(given.take(i as int)),
            decreases tokens.len() - i,
        {
            let ghost done = views(out@);
            let mut pieces: Vec<Token> = match &tokens[i] {
                Token::Unknown(text) => {
                    let span = self.find_punctuation(text.as_str());
                    separate_match(text.as_str(), span)
                },
                other => vec![other.duplicate()],
            };
            proof {
                assert(views(pieces@) == self.punctuated(given[i as int]));
                assert(given.take(i + 1).drop_last() == given.take(i as int));
            }
            out.append(&mut pieces);
            assert(views(out@) == done + self.punctuated(given[i as int]));
            i += 1;
        }
        proof {
            assert(given.take(i as int) == given);
            self.lemma_punctuation_keeps_text(given);
        }
        *tokens = out;
    }

    /// Gives each unknown token that has a numeric shape its type. Other tokens stay.
    pub fn parse_integers_and_reals(&self, tokens: &mut Vec<Token>)
        ensures
            views(final(tokens)@) == views(old(tokens)@).map_values(
                |t: TokenView| self.numbered(t),
            ),
            same_texts(views(final(tokens)@), views(old(tokens)@)),
            forall|i: int|
                0 <= i < old(tokens)@.len() && !(old(tokens)@[i]@ is Unknown)
                    ==> final(tokens)@[i]@ == #[trigger] old(tokens)@[i]@,
    {
        let ghost given = views(tokens@);
        let mut i: usize = 0;
        while i < tokens.len()
            invariant
                i <= tokens.len(),
                tokens.len() == given.len(),
                forall|j: int| 0 <= j < i ==> (#[trigger] tokens@[j])@ == self.numbered(given[j]),
                forall|j: int| i <= j < tokens.len() ==> (#[trigger] tokens@[j])@ == given[j],
            decreases tokens.len() - i,
        {
            let typed: Option<Token> = match &tokens[i] {
                Token::Unknown(text) => Some(self.number_for(text)),
                _ => None,
            };
            if let Some(token) = typed {
                tokens.set(i, token);
            }
            i += 1;
        }
        assert(views(tokens@) =~= given.map_values(|t: TokenView| self.numbered(t)));
    }

    /// Gives each unknown token that has a lexical shape its type. Other tokens stay.
    pub fn parse_words_etc(&self, tokens: &mut Vec<Token>)
        ensures
            views(final(tokens)@) == views(old(tokens)@).map_values(
                |t: TokenView| self.worded(t),
            ),
            same_texts(views(final(tokens)@), views(old(tokens)@)),
            forall|i: int|
                0 <= i < old(tokens)@.len() && !(old(tokens)@[i]@ is Unknown)
                    ==> final(tokens)@[i]@ == #[trigger] old(tokens)@[i]@,
    {
        let ghost given = views(tokens@);
        let mut i: usize = 0;
        while i < tokens.len()
            invariant
                i <= tokens.len(),
                tokens.len() == given.len(),
                forall|j: int| 0 <= j < i ==> (#[trigger] tokens@[j])@ == self.worded(given[j]),
                forall|j: int| i <= j < tokens.len() ==> (#[trigger] tokens@[j])@ == given[j],
            decreases tokens.len() - i,
        {
            let typed: Option<Token> = match &tokens[i] {
                Token::Unknown(text) => Some(self.word_for(text)),
                _ => None,
            };
            if let Some(token) = typed {
                tokens.set(i, token);
            }
            i += 1;
        }
        assert(views(tokens@) =~= given.map_values(|t: TokenView| self.worded(t)));
    }

    /// Turns a sentence into its tokens.
    ///
    /// The tokens come in the order of the text, none has an empty text, and their texts
    /// in a row are the characters of the sentence that are not whitespace. A sentence
    /// of whitespace alone has no tokens.
    pub fn tokenize(&self, sequence: &str) -> (r: Vec<Token>)
        ensures
            views(r@) == self.tokens_of(sequence@),
            source_text(views(r@)) == non_whitespace(sequence@),
            all_nonempty(views(r@)),
            (forall|i: int| 0 <= i < sequence@.len() ==> is_whitespace(#[trigger] sequence@[i]))
                ==> r@.len() == 0,
    {
        let mut tokens = split_fragments(sequence);
        self.separate_end_punctuation(&mut tokens);
        self.parse_integers_and_reals(&mut tokens);
        self.parse_words_etc(&mut tokens);
        proof {
            assert(views(tokens@) =~= self.tokens_of(sequence@));
            self.lemma_tokens_keep_text(sequence@);
            if forall|i: int| 0 <= i < sequence@.len() ==> is_whitespace(#[trigger] sequence@[i]) {
                self.lemma_whitespace_has_no_tokens(sequence@);
            }
        }
        tokens
    }

    /// The punctuation pass keeps the text of the sequence, makes no token with an empty
    /// text, and takes no token away.
    pub proof fn lemma_punctuation_keeps_text(&self, tokens: Seq<TokenView>)
        ensures
            source_text(self.punctuated_all(tokens)) == source_text(tokens),
            all_nonempty(tokens) ==> all_nonempty(self.punctuated_all(tokens)),
            self.punctuated_all(tokens).len() >= tokens.len(),
        decreases tokens.len(),
    {
        if tokens.len() > 0 {
            let front = tokens.drop_last();
            let token = tokens.last();
            self.lemma_punctuation_keeps_text(front);
            lemma_source_text_concat(self.punctuated_all(front), self.punctuated(token));
            match token {
                TokenView::Unknown(text) => {
                    lemma_separated_keeps_text(text, self.punctuation_span(text));
                    if text.len() > 0 {
                        lemma_separated_nonempty(text, self.punctuation_span(text));
                    }
                },
                _ => {
                    lemma_source_text_one(token);
                },
            }
            if all_nonempty(tokens) {
                assert(all_nonempty(front));
                assert(token.text().len() > 0);
                assert(all_nonempty(self.punctuated(token)));
            }
        }
    }

    /// The tokens of a sentence, read left to right, hold its characters that are not
    /// whitespace, in their order; and none of them has an empty text.
    pub proof fn lemma_tokens_keep_text(&self, text: Seq<char>)
        ensures
            source_text(self.tokens_of(text)) == non_whitespace(text),
            all_nonempty(self.tokens_of(text)),
    {
        let split = unknown_tokens(fragments(text));
        let cut = self.punctuated_all(split);
        lemma_fragments_join(text);
        lemma_fragments_are_runs(text);
        lemma_unknown_tokens_text(fragments(text));
        assert(all_nonempty(split));
        self.lemma_punctuation_keeps_text(split);
        assert(same_texts(self.tokens_of(text), cut));
        lemma_same_texts(self.tokens_of(text), cut);
    }

    /// A sentence of whitespace alone has no tokens.
    pub proof fn lemma_whitespace_has_no_tokens(&self, text: Seq<char>)
        requires
            forall|i: int| 0 <= i < text.len() ==> is_whitespace(#[trigger] text[i]),
        ensures
            self.tokens_of(text).len() == 0,
    {
        lemma_whitespace_has_no_fragments(text);
    }

    /// With every rule there, each shape is what its pattern accepts, and the trailing
    /// run of punctuation is where the punctuation pattern matches.
    pub proof fn lemma_complete_rules(&self, text: Seq<char>)
        requires
            self.wf(),
            self.complete(),
        ensures
            all_compile(),
            self.punctuation_span(text) == pattern_span(PUNCTUATION_PATTERN@, text),
            self.is_real(text) == pattern_accepts(REAL_PATTERN@, text),
            self.is_integer(text) == pattern_accepts(INTEGER_PATTERN@, text),
            self.is_comma_real(text) == pattern_accepts(COMMA_REAL_PATTERN@, text),
            self.is_comma_integer(text) == pattern_accepts(COMMA_INTEGER_PATTERN@, text),
            self.is_url(text) == pattern_accepts(URL_PATTERN@, text),
            self.is_hashtag(text) == pattern_accepts(HASHTAG_PATTERN@, text),
            self.is_username(text) == pattern_accepts(USERNAME_PATTERN@, text),
            self.is_word(text) == pattern_accepts(WORD_PATTERN@, text),
            self.is_hyphenated_word(text) == pattern_accepts(HYPHENATED_WORD_PATTERN@, text),
    {
    }

    /// Any two tokenizers cut every sequence of tokens alike in the punctuation pass.
    pub proof fn lemma_punctuation_agrees(&self, other: &Self, tokens: Seq<TokenView>)
        ensures
            self.punctuated_all(tokens) == other.punctuated_all(tokens),
        decreases tokens.len(),
    {
        if tokens.len() > 0 {
            self.lemma_punctuation_agrees(other, tokens.drop_last());
        }
    }

    /// Any two tokenizers tokenize every sentence alike: a tokenizer keeps no state but
    /// its rules, and those are the same in each.
    pub proof fn lemma_tokenizers_agree(&self, other: &Self, text: Seq<char>)
        ensures
            self.tokens_of(text) == other.tokens_of(text),
    {
        self.lemma_punctuation_agrees(other, unknown_tokens(fragments(text)));
        assert(self.tokens_of(text) =~= other.tokens_of(text));
    }

    /// A token that has a type is never changed again: each of the three passes leaves
    /// it as it is, and so a token keeps the type that it was first given.
    pub proof fn lemma_typed_tokens_stay(&self, token: TokenView)
        requires
            !(token is Unknown),
        ensures
            self.punctuated(token) == seq![token],
            self.numbered(token) == token,
            self.worded(token) == token,
            self.worded(self.numbered(token)) == token,
    {
    }

    /// A fragment that the number pass gave a type keeps it in the lexical pass.
    pub proof fn lemma_numbers_stay(&self, text: Seq<char>)
        requires
            !(self.numbered(TokenView::Unknown(text)) is Unknown),
        ensures
            self.worded(self.numbered(TokenView::Unknown(text))) == self.numbered(
                TokenView::Unknown(text),
            ),
    {
    }

    /// Whether every pattern compiled, so that no rule is absent.
    pub fn is_complete(&self) -> (r: bool)
        ensures
            r == self.complete(),
            r == all_compile(),
    {
        proof {
            use_type_invariant(self);
        }
        self.punctuation.is_some() && self.real.is_some() && self.integer.is_some()
            && self.comma_real.is_some() && self.comma_integer.is_some() && self.url.is_some()
            && self.hashtag.is_some() && self.username.is_some() && self.word.is_some()
            && self.hyphenated_word.is_some()
    }
}

/// What comes of compiling a pattern, as a rule: the compiled pattern itself where there
/// is one, and no rule where compiling failed.
pub fn rule_of(compiled: Result<Regex, regex::Error>) -> (r: Option<Regex>)
    ensures
        r == (match compiled {
            Ok(re) => Some(re),
            Err(_) => None,
        }),
{
    match compiled {
        Ok(re) => Some(re),
        Err(_) => None,
    }
}

} // verus!
