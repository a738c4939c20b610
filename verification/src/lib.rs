//! Lexing of English sentences into typed tokens, as a first stage of speech synthesis.
//!
//! A sentence is cut at whitespace into fragments; a single trailing punctuation mark is
//! taken off each fragment; what is left is classified as a number, a link, a tag, a
//! mention or a word, or stays unknown.

pub mod classify;
pub mod pattern;
pub mod punctuate;
pub mod split;
pub mod token;
pub mod tokenizer;

pub use token::Punctuation;
pub use token::Token;
pub use token::TokenView;
pub use tokenizer::SentenceTokenizer;
