//! The builder that assembles one token on a borrowed cursor, one expected
//! character at a time.

use vstd::prelude::*;
use crate::chars::first;
use crate::pos::WithPos;
use crate::scanner::{Scanner, Token};
use crate::token::TokenType;

verus! {

/// Assembles one token by trying expected characters in turn on a borrowed
/// cursor. It remembers where the first match began and the kind of the last
/// match; after the first mismatch it does nothing more. A mismatch consumes
/// nothing, so the token that comes out is the longest spelling that matched.
pub struct TokenMatcher<'s> {
    /// Line and byte offset where the first match began.
    pub start: Option<(usize, usize)>,
    /// The cursor that the matches are consumed from.
    pub tokenizer: &'s mut Scanner,
    /// The kind given with the last match.
    pub value: Option<TokenType>,
    /// Whether every step so far has matched.
    pub is_prev_match: bool,
}

impl<'s> TokenMatcher<'s> {
    /// A builder that has matched nothing yet.
    pub fn new(tokenizer: &'s mut Scanner) -> (m: Self)
        ensures
            *m.tokenizer == *old(tokenizer),
            *final(m.tokenizer) == *final(tokenizer),
            m.start is None,
            m.value is None,
            m.is_prev_match,
    {
        Self { start: None, tokenizer, value: None, is_prev_match: true }
    }

    /// Where the token begins once a step matches: where it began before, or,
    /// on the first match, where the cursor stands.
    pub open spec fn start_after_match(&self) -> Option<(usize, usize)> {
        if self.start is Some {
            self.start
        } else {
            Some((self.tokenizer.line() as usize, self.tokenizer.byte_pos() as usize))
        }
    }

    /// Whether this step consumes a character: no step has failed, and the
    /// next character is `ch`.
    pub open spec fn matches_next(&self, ch: char) -> bool {
        self.is_prev_match && first(self.tokenizer.rest()) == Some(ch)
    }

    /// Tries `ch`. Where no step has failed and the next character is `ch`,
    /// consumes it, makes `matched` the token's kind and, on the first match,
    /// records where it began. Otherwise consumes nothing and every later step
    /// does nothing.
    pub fn and_then(&mut self, ch: char, matched: TokenType) -> (r: &mut Self)
        requires
            old(self).tokenizer.wf(),
        ensures
            *final(r) == *final(self),
            *final(r.tokenizer) == *final(old(self).tokenizer),
            r.tokenizer.wf(),
            r.tokenizer.input() == old(self).tokenizer.input(),
            r.is_prev_match == old(self).matches_next(ch),
            old(self).matches_next(ch) ==> {
                &&& r.tokenizer.offset() == old(self).tokenizer.offset() + 1
                &&& r.value == Some(matched)
                &&& r.start == old(self).start_after_match()
            },
            !old(self).matches_next(ch) ==> {
                &&& r.tokenizer.offset() == old(self).tokenizer.offset()
                &&& r.value == old(self).value
                &&& r.start == old(self).start
            },
    {
        if !self.is_prev_match {
            return self;
        }
        let hit = match self.tokenizer.peek() {
            Some(c) => c == ch,
            None => false,
        };
        if hit {
            if self.start.is_none() {
                self.start = Some(self.tokenizer.pos());
            }
            self.tokenizer.bump();
            self.value = Some(matched);
        } else {
            self.is_prev_match = false;
        }
        self
    }

    /// Tries whatever `f` accepts. Where no step has failed and `f` names a
    /// kind for the next character, consumes that character, makes the kind
    /// the token's kind and, on the first match, records where it began.
    /// Otherwise (a failed step before, the end of the text, or `f` naming no
    /// kind) consumes nothing and every later step does nothing.
    pub fn then<F: Fn(char) -> Option<TokenType>>(&mut self, f: F) -> (r: &mut Self)
        requires
            old(self).tokenizer.wf(),
            old(self).is_prev_match && old(self).tokenizer.rest().len() > 0 ==> call_requires(
                f,
                (old(self).tokenizer.rest()[0],),
            ),
        ensures
            *final(r) == *final(self),
            *final(r.tokenizer) == *final(old(self).tokenizer),
            r.tokenizer.wf(),
            r.tokenizer.input() == old(self).tokenizer.input(),
            r.is_prev_match ==> {
                &&& old(self).is_prev_match
                &&& old(self).tokenizer.rest().len() > 0
                &&& r.value is Some
                &&& call_ensures(f, (old(self).tokenizer.rest()[0],), r.value)
                &&& r.tokenizer.offset() == old(self).tokenizer.offset() + 1
                &&& r.start == old(self).start_after_match()
            },
            !r.is_prev_match ==> {
                &&& r.tokenizer.offset() == old(self).tokenizer.offset()
                &&& r.value == old(self).value
                &&& r.start == old(self).start
                &&& old(self).is_prev_match && old(self).tokenizer.rest().len() > 0
                    ==> call_ensures(f, (old(self).tokenizer.rest()[0],), None)
            },
    {
        if !self.is_prev_match {
            return self;
        }
        let found = match self.tokenizer.peek() {
            Some(c) => f(c),
            None => None,
        };
        match found {
            Some(kind) => {
                if self.start.is_none() {
                    self.start = Some(self.tokenizer.pos());
                }
                self.tokenizer.bump();
                self.value = Some(kind);
            },
            None => {
                self.is_prev_match = false;
            },
        }
        self
    }

    /// The token that was assembled: `None` where nothing matched, else the
    /// kind of the last match, spanning from where the first match began to
    /// where the cursor stands.
    pub fn finalized(&self) -> (r: Option<WithPos<Token>>)
        requires
            self.tokenizer.wf(),
        ensures
            r is Some == (self.start is Some && self.value is Some),
            r matches Some(tok) ==> {
                &&& tok.value.kind() == self.value.unwrap()
                &&& tok.value.text() is None
                &&& tok.line_start() == self.start.unwrap().0
                &&& tok.byte_start() == self.start.unwrap().1
                &&& tok.line_end() == old(self.tokenizer).line()
                &&& tok.byte_end() == old(self.tokenizer).byte_pos()
            },
    {
        let start = match self.start {
            Some(s) => s,
            None => {
                return None;
            },
        };
        let end_pos = self.tokenizer.pos();
        let value = match self.value {
            Some(v) => v,
            None => {
                return None;
            },
        };
        Some(
            WithPos::new(Token::new(value)).set_byte_pos(start.1..end_pos.1).set_line_pos(
                start.0..end_pos.0,
            ),
        )
    }
}

} // verus!
