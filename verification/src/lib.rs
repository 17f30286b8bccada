//! A lexical scanner: it turns source text into positioned tokens.
//!
//! [`Scanner`] is the cursor over the text and the token producer built on it;
//! [`TokenMatcher`] assembles one operator token on a borrowed cursor by
//! trying its spellings longest-last. [`token::Tokenizer`] produces the same
//! tokens through the cursor of the `scanny` crate: the same kinds and spans,
//! and the same text on identifiers and literals, borrowed from the input
//! instead of copied. What a token is, independent of either producer, is
//! written down in [`grammar`]; what holds of every token stream is proved in
//! [`stream`].

pub mod chars;
pub mod cursor;
pub mod grammar;
pub mod matcher;
pub mod pos;
pub mod scanner;
pub mod stream;
pub mod token;
pub mod tokenizer;

pub use matcher::TokenMatcher;
pub use scanner::{Scanner, Token};
