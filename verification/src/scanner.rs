//! The cursor over the text, the builder that assembles one operator token on
//! it, and the scans that turn the text into tokens.

use vstd::prelude::*;
use vstd::string::StringExecFns;
use crate::chars::{
    byte_len, digit, first, ident_part, ident_start, is_digit, is_ident_part, is_ident_start,
    is_number_part, is_quote, lemma_byte_len_push, lemma_measures_bounded,
    lemma_measures_monotonic, lemma_newlines_push, lemma_run_len, lemma_run_len_unique,
    lemma_utf8_width_bounds, newlines, number_part, quote, run_len, is_white_space, utf8_width,
    CharClass,
};
use crate::grammar::{
    has_fraction, lemma_punct_spellings, lexeme_at, lexeme_kind, lexeme_len, number_len,
    string_closed, string_end, token_start,
};
use crate::matcher::TokenMatcher;
use crate::pos::WithPos;
use crate::token::{classify_word, word_kind, TokenType};

verus! {

/// `String::push` appends the character to the end of the string.
pub assume_specification[ std::string::String::push ](s: &mut std::string::String, c: char)
    ensures
        final(s)@ == old(s)@.push(c),
;

/// A token: its kind and, for identifiers and literals, its text.
#[derive(Debug, PartialEq)]
pub struct Token {
    token_type: TokenType,
    _value: Option<String>,
}

impl Token {
    /// The token's kind.
    pub closed spec fn kind(&self) -> TokenType {
        self.token_type
    }

    /// The token's text, if it carries one.
    pub closed spec fn text(&self) -> Option<Seq<char>> {
        match self._value {
            Some(s) => Some(s@),
            None => None,
        }
    }

    /// A token of the given kind, without text.
    pub fn new(token_type: TokenType) -> (t: Self)
        ensures
            t.kind() == token_type,
            t.text() is None,
    {
        Self { token_type, _value: None }
    }

    /// The same token with `value` as its text.
    pub fn value(self, value: String) -> (t: Self)
        ensures
            t.kind() == self.kind(),
            t.text() == Some(value@),
    {
        Self { token_type: self.token_type, _value: Some(value) }
    }

    /// The token's kind.
    pub fn token_type(&self) -> (k: TokenType)
        ensures
            k == self.kind(),
    {
        self.token_type
    }

    /// The token's text, if it carries one.
    pub fn as_text(&self) -> (r: Option<&str>)
        ensures
            r is Some == self.text() is Some,
            r matches Some(s) ==> self.text() == Some(s@),
    {
        match &self._value {
            Some(s) => Some(s.as_str()),
            None => None,
        }
    }
}

/// Whether `tok` is the token of kind `kind` that spans the characters from
/// index `from` up to index `to` of `input`: it has that kind, carries those
/// characters as its text if the kind carries text, and its spans are the
/// bytes and lines of that part of the text.
pub open spec fn token_spans(
    tok: WithPos<Token>,
    input: Seq<char>,
    from: nat,
    to: nat,
    kind: TokenType,
) -> bool {
    &&& tok.value.kind() == kind
    &&& tok.value.text() == if kind.carries_text() {
        Some(input.subrange(from as int, to as int))
    } else {
        None
    }
    &&& tok.byte_start() == byte_len(input.take(from as int))
    &&& tok.byte_end() == byte_len(input.take(to as int))
    &&& tok.line_start() == newlines(input.take(from as int))
    &&& tok.line_end() == newlines(input.take(to as int))
}

/// A token that spans part of a text does not end before it starts.
pub proof fn lemma_token_spans_ordered(
    tok: WithPos<Token>,
    input: Seq<char>,
    from: nat,
    to: nat,
    kind: TokenType,
)
    requires
        token_spans(tok, input, from, to, kind),
        from <= to <= input.len(),
    ensures
        tok.wf(),
{
    lemma_measures_monotonic(input, from as int, to as int);
}

/// The token of the given kind between two cursor positions, with `text` where
/// the kind carries text.
fn spanned(kind: TokenType, text: String, start: (usize, usize), end: (usize, usize)) -> (tok:
    WithPos<Token>)
    ensures
        tok.value.kind() == kind,
        tok.value.text() == if kind.carries_text() {
            Some(text@)
        } else {
            None
        },
        tok.line_start() == start.0,
        tok.byte_start() == start.1,
        tok.line_end() == end.0,
        tok.byte_end() == end.1,
{
    let token = if kind.has_text() {
        Token::new(kind).value(text)
    } else {
        Token::new(kind)
    };
    WithPos::new(token).set_byte_pos(start.1..end.1).set_line_pos(start.0..end.0)
}

/// The read position in a text: the text, and how much of it has been
/// consumed.
///
/// The line and byte counters are kept as the cursor moves and always equal
/// the number of line breaks and of UTF-8 bytes in the consumed part.
pub struct Scanner {
    input: Vec<char>,
    at: usize,
    line: usize,
    pos: usize,
}

impl Scanner {
    /// The whole text.
    pub closed spec fn input(&self) -> Seq<char> {
        self.input@
    }

    /// How many characters have been consumed.
    pub closed spec fn offset(&self) -> nat {
        self.at as nat
    }

    /// The counters agree with the consumed part, and the text's bytes can be
    /// counted in a `usize`.
    pub closed spec fn wf(&self) -> bool {
        &&& self.at <= self.input.len()
        &&& byte_len(self.input@) <= usize::MAX
        &&& self.pos == byte_len(self.input@.take(self.at as int))
        &&& self.line == newlines(self.input@.take(self.at as int))
    }

    /// The part that has been consumed.
    pub open spec fn consumed(&self) -> Seq<char> {
        self.input().take(self.offset() as int)
    }

    /// The part that is still to be read.
    pub open spec fn rest(&self) -> Seq<char> {
        self.input().skip(self.offset() as int)
    }

    /// The byte offset of the next character.
    pub open spec fn byte_pos(&self) -> nat {
        byte_len(self.consumed())
    }

    /// The line of the next character.
    pub open spec fn line(&self) -> nat {
        newlines(self.consumed())
    }

    /// A well-formed cursor is inside its text, and its counters fit a `usize`.
    pub proof fn lemma_wf(&self)
        requires
            self.wf(),
        ensures
            self.offset() <= self.input().len(),
            self.line() <= self.byte_pos() <= byte_len(self.input()) <= usize::MAX,
    {
        lemma_measures_monotonic(self.input@, self.at as int, self.input@.len() as int);
        assert(self.input@.take(self.input@.len() as int) =~= self.input@);
        lemma_measures_bounded(self.consumed());
    }

    /// A cursor at the start of `value`.
    pub fn new(value: &str) -> (sc: Self)
        ensures
            sc.wf(),
            sc.input() == value@,
            sc.offset() == 0,
    {
        let mut input: Vec<char> = Vec::new();
        for c in it: value.chars()
            invariant
                input@ == it.seq().take(it.index() as int),
                it.seq() == value@,
        {
            input.push(c);
        }
        // The text's bytes are counted by a `usize`, so the byte counter, which
        // never exceeds their number, cannot overflow.
        let bytes = value.as_bytes().len();
        assert(input@ =~= value@);
        assert(input@.take(0) =~= Seq::<char>::empty());
        Self { input, at: 0, line: 0, pos: 0 }
    }

    /// Consumes the next character and returns it; at the end of the text,
    /// returns `None` and changes nothing.
    pub fn bump(&mut self) -> (r: Option<char>)
        requires
            old(self).wf(),
        ensures
            final(self).wf(),
            final(self).input() == old(self).input(),
            r == first(old(self).rest()),
            final(self).offset() == old(self).offset() + if r is Some {
                1nat
            } else {
                0nat
            },
            r matches Some(c) ==> {
                &&& final(self).byte_pos() == old(self).byte_pos() + utf8_width(c)
                &&& final(self).line() == old(self).line() + if c == '\n' {
                    1nat
                } else {
                    0nat
                }
            },
    {
        if self.at < self.input.len() {
            let c = self.input[self.at];
            proof {
                let s = self.input@;
                let k = self.at as int;
                assert(s.take(k + 1) =~= s.take(k).push(c));
                lemma_byte_len_push(s.take(k), c);
                lemma_newlines_push(s.take(k), c);
                lemma_utf8_width_bounds(c);
                lemma_measures_monotonic(s, k + 1, s.len() as int);
                assert(s.take(s.len() as int) =~= s);
                lemma_measures_bounded(s.take(k + 1));
            }
            if c == '\n' {
                self.pos = self.pos + 1;
                self.line = self.line + 1;
            } else {
                self.pos = self.pos + c.len_utf8();
            }
            self.at = self.at + 1;
            Some(c)
        } else {
            None
        }
    }

    /// The next character, which stays unconsumed.
    pub fn peek(&self) -> (r: Option<char>)
        requires
            self.wf(),
        ensures
            r == first(self.rest()),
    {
        if self.at < self.input.len() {
            Some(self.input[self.at])
        } else {
            None
        }
    }

    /// The current line and byte offset.
    pub fn pos(&self) -> (r: (usize, usize))
        requires
            self.wf(),
        ensures
            r.0 == self.line(),
            r.1 == self.byte_pos(),
    {
        (self.line, self.pos)
    }

    /// The character `k` places after the next one, which stays unconsumed.
    fn peek_at(&self, k: usize) -> (r: Option<char>)
        requires
            self.wf(),
        ensures
            r == if k < self.rest().len() {
                Some(self.rest()[k as int])
            } else {
                None
            },
    {
        if k < self.input.len() - self.at {
            Some(self.input[self.at + k])
        } else {
            None
        }
    }

    /// Consumes characters for as long as `f` accepts the next one, and
    /// returns them. The first character that `f` turns down stays unconsumed.
    pub fn consume_while<F: Fn(char) -> bool>(&mut self, f: F) -> (text: String)
        requires
            old(self).wf(),
            forall|i: int|
                0 <= i < old(self).rest().len() ==> call_requires(
                    f,
                    (#[trigger] old(self).rest()[i],),
                ),
        ensures
            final(self).wf(),
            final(self).input() == old(self).input(),
            final(self).offset() == old(self).offset() + text@.len(),
            text@.len() <= old(self).rest().len(),
            text@ == old(self).rest().take(text@.len() as int),
            forall|i: int| 0 <= i < text@.len() ==> call_ensures(f, (#[trigger] text@[i],), true),
            text@.len() < old(self).rest().len() ==> call_ensures(
                f,
                (old(self).rest()[text@.len() as int],),
                false,
            ),
    {
        let mut v = String::new();
        let ghost rest = self.rest();
        loop
            invariant
                self.wf(),
                self.input() == old(self).input(),
                rest == old(self).rest(),
                self.offset() == old(self).offset() + v@.len(),
                v@.len() <= rest.len(),
                v@ == rest.take(v@.len() as int),
                forall|i: int| 0 <= i < rest.len() ==> call_requires(f, (#[trigger] rest[i],)),
                forall|i: int| 0 <= i < v@.len() ==> call_ensures(f, (#[trigger] v@[i],), true),
            ensures
                v@.len() < rest.len() ==> call_ensures(f, (rest[v@.len() as int],), false),
            decreases rest.len() - v@.len(),
        {
            match self.peek() {
                Some(ch) => {
                    assert(ch == rest[v@.len() as int]);
                    if f(ch) {
                        self.bump();
                        v.push(ch);
                        assert(v@ =~= rest.take(v@.len() as int));
                    } else {
                        break ;
                    }
                },
                None => {
                    break ;
                },
            }
        }
        v
    }

    /// Reads an identifier or reserved word, if the next character can open
    /// one: the longest run of letters, digits and `_`. A reserved word gives
    /// a token of its kind; any other run gives an `Identifier` that carries
    /// the run as its text.
    pub fn consume_identifier(&mut self) -> (r: Option<WithPos<Token>>)
        requires
            old(self).wf(),
        ensures
            final(self).wf(),
            final(self).input() == old(self).input(),
            match r {
                Some(tok) => {
                    let n = run_len(old(self).rest(), CharClass::IdentPart);
                    &&& old(self).rest().len() > 0
                    &&& is_ident_start(old(self).rest()[0])
                    &&& final(self).offset() == old(self).offset() + n
                    &&& token_spans(
                        tok,
                        old(self).input(),
                        old(self).offset(),
                        old(self).offset() + n,
                        word_kind(old(self).rest().take(n as int)),
                    )
                },
                None => {
                    &&& final(self).offset() == old(self).offset()
                    &&& !(old(self).rest().len() > 0 && is_ident_start(old(self).rest()[0]))
                },
            },
    {
        match self.peek() {
            Some(ch) => {
                if !ident_start(ch) {
                    return None;
                }
            },
            None => {
                return None;
            },
        }
        let start = self.pos();
        let ghost rest = self.rest();
        let identifier = self.consume_while(ident_part);
        let end = self.pos();
        proof {
            assert forall|i: int| 0 <= i < identifier@.len() implies is_ident_part(
                #[trigger] rest[i],
            ) by {
                assert(rest[i] == identifier@[i]);
            }
            lemma_run_len_unique(rest, CharClass::IdentPart, identifier@.len());
            assert(rest.take(identifier@.len() as int) =~= self.input().subrange(
                old(self).offset() as int,
                self.offset() as int,
            ));
        }
        let kind = classify_word(identifier.as_str());
        Some(spanned(kind, identifier, start, end))
    }

    /// Reads a numeric literal, if the next character is a digit: the longest
    /// run of digits and `_`, and, where a `.` and a digit follow, that `.` and
    /// a second such run. With the fraction it is a `Float`, without it an
    /// `Int`; a `.` that no digit follows is left unconsumed. The text keeps
    /// the `_` separators.
    pub fn consume_number(&mut self) -> (r: Option<WithPos<Token>>)
        requires
            old(self).wf(),
        ensures
            final(self).wf(),
            final(self).input() == old(self).input(),
            match r {
                Some(tok) => {
                    let n = number_len(old(self).rest());
                    &&& old(self).rest().len() > 0
                    &&& is_digit(old(self).rest()[0])
                    &&& final(self).offset() == old(self).offset() + n
                    &&& token_spans(
                        tok,
                        old(self).input(),
                        old(self).offset(),
                        old(self).offset() + n,
                        if has_fraction(old(self).rest()) {
                            TokenType::Float
                        } else {
                            TokenType::Int
                        },
                    )
                },
                None => {
                    &&& final(self).offset() == old(self).offset()
                    &&& !(old(self).rest().len() > 0 && is_digit(old(self).rest()[0]))
                },
            },
    {
        match self.peek() {
            Some(ch) => {
                if !digit(ch) {
                    return None;
                }
            },
            None => {
                return None;
            },
        }
        let start = self.pos();
        let ghost rest = self.rest();
        let mut text = self.consume_while(number_part);
        let ghost whole = text@.len();
        proof {
            assert forall|i: int| 0 <= i < whole implies is_number_part(#[trigger] rest[i]) by {
                assert(rest[i] == text@[i]);
            }
            lemma_run_len_unique(rest, CharClass::NumberPart, whole);
            assert(self.rest() =~= rest.skip(whole as int));
        }
        let mut kind = TokenType::Int;
        let dot = match self.peek() {
            Some(c) => c == '.',
            None => false,
        };
        let fraction = dot && match self.peek_at(1) {
            Some(d) => digit(d),
            None => false,
        };
        assert(fraction == has_fraction(rest));
        if fraction {
            self.bump();
            text.push('.');
            proof {
                assert(self.rest() =~= rest.skip(whole + 1 as int));
            }
            let ghost tail = self.rest();
            let decimals = self.consume_while(number_part);
            proof {
                assert forall|i: int| 0 <= i < decimals@.len() implies is_number_part(
                    #[trigger] tail[i],
                ) by {
                    assert(tail[i] == decimals@[i]);
                }
                lemma_run_len_unique(tail, CharClass::NumberPart, decimals@.len());
            }
            text.append(decimals.as_str());
            kind = TokenType::Float;
        }
        let end = self.pos();
        proof {
            assert(text@ =~= self.input().subrange(
                old(self).offset() as int,
                self.offset() as int,
            ));
        }
        Some(spanned(kind, text, start, end))
    }

    /// Reads a string literal, if the next character is a quote: the quote,
    /// and everything up to and including the next quote of the same kind that
    /// no backslash escapes. The token is a `String` that carries the literal
    /// as written, quotes and escapes included. Where the text ends before the
    /// closing quote, the token is an `InvalidToken` that reaches to the end.
    pub fn consume_string(&mut self) -> (r: Option<WithPos<Token>>)
        requires
            old(self).wf(),
        ensures
            final(self).wf(),
            final(self).input() == old(self).input(),
            match r {
                Some(tok) => {
                    let q = old(self).rest()[0];
                    let n = string_end(old(self).rest(), q, 1);
                    &&& old(self).rest().len() > 0
                    &&& is_quote(q)
                    &&& final(self).offset() == old(self).offset() + n
                    &&& token_spans(
                        tok,
                        old(self).input(),
                        old(self).offset(),
                        old(self).offset() + n,
                        if string_closed(old(self).rest(), q, 1) {
                            TokenType::String
                        } else {
                            TokenType::InvalidToken
                        },
                    )
                },
                None => {
                    &&& final(self).offset() == old(self).offset()
                    &&& !(old(self).rest().len() > 0 && is_quote(old(self).rest()[0]))
                },
            },
    {
        let q = match self.peek() {
            Some(ch) => {
                if !quote(ch) {
                    return None;
                }
                ch
            },
            None => {
                return None;
            },
        };
        let start = self.pos();
        let ghost rest = self.rest();
        let mut text = String::new();
        self.bump();
        text.push(q);
        let mut closed = false;
        assert(text@ =~= rest.take(1));
        loop
            invariant_except_break
                !closed,
                string_end(rest, q, text@.len()) == string_end(rest, q, 1),
                string_closed(rest, q, text@.len()) == string_closed(rest, q, 1),
            invariant
                self.wf(),
                self.input() == old(self).input(),
                rest == old(self).rest(),
                self.offset() == old(self).offset() + text@.len(),
                1 <= text@.len() <= rest.len(),
                text@ == rest.take(text@.len() as int),
            ensures
                text@.len() == string_end(rest, q, 1),
                closed == string_closed(rest, q, 1),
            decreases rest.len() - text@.len(),
        {
            let ghost i = text@.len() as int;
            match self.bump() {
                None => {
                    break ;
                },
                Some(c) => {
                    assert(c == rest[i as int]);
                    text.push(c);
                    assert(text@ =~= rest.take(i + 1));
                    if c == q {
                        closed = true;
                        break ;
                    } else if c == '\\' {
                        match self.bump() {
                            Some(e) => {
                                assert(e == rest[i + 1]);
                                text.push(e);
                                assert(text@ =~= rest.take(i + 2));
                            },
                            None => {
                                reveal_with_fuel(string_end, 2);
                                reveal_with_fuel(string_closed, 2);
                            },
                        }
                    }
                },
            }
        }
        let end = self.pos();
        let kind = if closed {
            TokenType::String
        } else {
            TokenType::InvalidToken
        };
        proof {
            assert(text@ =~= self.input().subrange(
                old(self).offset() as int,
                self.offset() as int,
            ));
        }
        Some(spanned(kind, text, start, end))
    }

    /// Reads the operator that opens with `a`, which is the next character:
    /// `two` where `b` follows it, else `one`.
    fn scan_operator(&mut self, a: char, one: TokenType, b: char, two: TokenType) -> (r: Option<
        WithPos<Token>,
    >)
        requires
            old(self).wf(),
            first(old(self).rest()) == Some(a),
            !one.carries_text(),
            !two.carries_text(),
        ensures
            final(self).wf(),
            final(self).input() == old(self).input(),
            r matches Some(tok) && {
                let long = old(self).rest().len() >= 2 && old(self).rest()[1] == b;
                let n = if long {
                    2nat
                } else {
                    1nat
                };
                &&& final(self).offset() == old(self).offset() + n
                &&& token_spans(
                    tok,
                    old(self).input(),
                    old(self).offset(),
                    old(self).offset() + n,
                    if long {
                        two
                    } else {
                        one
                    },
                )
            },
    {
        proof {
            self.lemma_wf();
            assert(self.rest().skip(1) =~= self.input().skip(self.offset() + 1 as int));
        }
        self.token_matcher().and_then(a, one).and_then(b, two).finalized()
    }

    /// Reads the operator that opens with `a`, which is the next character:
    /// `three` where `c` follows it, `two` where `b` does, else `one`.
    fn scan_operator_either(
        &mut self,
        a: char,
        one: TokenType,
        b: char,
        two: TokenType,
        c: char,
        three: TokenType,
    ) -> (r: Option<WithPos<Token>>)
        requires
            old(self).wf(),
            first(old(self).rest()) == Some(a),
            !one.carries_text(),
            !two.carries_text(),
            !three.carries_text(),
            b != c,
        ensures
            final(self).wf(),
            final(self).input() == old(self).input(),
            r matches Some(tok) && {
                let second = if old(self).rest().len() >= 2 {
                    Some(old(self).rest()[1])
                } else {
                    None
                };
                let long = second == Some(b) || second == Some(c);
                let n = if long {
                    2nat
                } else {
                    1nat
                };
                &&& final(self).offset() == old(self).offset() + n
                &&& token_spans(
                    tok,
                    old(self).input(),
                    old(self).offset(),
                    old(self).offset() + n,
                    if second == Some(c) {
                        three
                    } else if second == Some(b) {
                        two
                    } else {
                        one
                    },
                )
            },
    {
        proof {
            self.lemma_wf();
            assert(self.rest().skip(1) =~= self.input().skip(self.offset() + 1 as int));
        }
        let other = match self.peek_at(1) {
            Some(x) => x == c,
            None => false,
        };
        if other {
            self.token_matcher().and_then(a, one).and_then(c, three).finalized()
        } else {
            self.token_matcher().and_then(a, one).and_then(b, two).finalized()
        }
    }

    /// Reads the one-character token of kind `kind` that the next character,
    /// `a`, spells.
    fn scan_single(&mut self, a: char, kind: TokenType) -> (r: Option<WithPos<Token>>)
        requires
            old(self).wf(),
            first(old(self).rest()) == Some(a),
            !kind.carries_text(),
        ensures
            final(self).wf(),
            final(self).input() == old(self).input(),
            r matches Some(tok) && final(self).offset() == old(self).offset() + 1 && token_spans(
                tok,
                old(self).input(),
                old(self).offset(),
                old(self).offset() + 1,
                kind,
            ),
    {
        proof {
            self.lemma_wf();
        }
        self.token_matcher().and_then(a, kind).finalized()
    }

    /// Reads the token that starts at the next character, whatever that
    /// character is: an identifier or reserved word, a number, a string, an
    /// operator or delimiter in its longest spelling, or, for a character that
    /// opens none of these, an `InvalidToken` of that one character. At the
    /// end of the text there is no token.
    pub fn scan_token(&mut self) -> (r: Option<WithPos<Token>>)
        requires
            old(self).wf(),
        ensures
            final(self).wf(),
            final(self).input() == old(self).input(),
            match r {
                Some(tok) => {
                    let n = lexeme_len(old(self).rest());
                    &&& old(self).rest().len() > 0
                    &&& final(self).offset() == old(self).offset() + n
                    &&& token_spans(
                        tok,
                        old(self).input(),
                        old(self).offset(),
                        old(self).offset() + n,
                        lexeme_kind(old(self).rest()),
                    )
                    &&& tok.wf()
                },
                None => old(self).rest().len() == 0 && final(self).offset() == old(self).offset(),
            },
    {
        let c = match self.peek() {
            Some(c) => c,
            None => {
                return None;
            },
        };
        proof {
            lemma_punct_spellings();
        }
        let r = if ident_start(c) {
            self.consume_identifier()
        } else if digit(c) {
            self.consume_number()
        } else if quote(c) {
            self.consume_string()
        } else if c == '+' {
            self.scan_operator(c, TokenType::Plus, '=', TokenType::PlusEq)
        } else if c == '-' {
            self.scan_operator_either(
                c,
                TokenType::Minus,
                '=',
                TokenType::MinusEq,
                '>',
                TokenType::Arrow,
            )
        } else if c == '*' {
            self.scan_operator(c, TokenType::Star, '=', TokenType::StarEq)
        } else if c == '/' {
            self.scan_operator(c, TokenType::Slash, '=', TokenType::SlashEq)
        } else if c == '%' {
            self.scan_operator(c, TokenType::Percent, '=', TokenType::PercentEq)
        } else if c == '=' {
            self.scan_operator(c, TokenType::Eq, '=', TokenType::EqEq)
        } else if c == '!' {
            self.scan_operator(c, TokenType::Bang, '=', TokenType::NotEq)
        } else if c == '<' {
            self.scan_operator(c, TokenType::Lt, '=', TokenType::LtEq)
        } else if c == '>' {
            self.scan_operator(c, TokenType::Gt, '=', TokenType::GtEq)
        } else if c == '&' {
            self.scan_operator(c, TokenType::And, '&', TokenType::AndAnd)
        } else if c == '|' {
            self.scan_operator(c, TokenType::Pipe, '|', TokenType::Or)
        } else if c == ':' {
            self.scan_operator(c, TokenType::Colon, ':', TokenType::DoubleColon)
        } else if c == '.' {
            self.scan_operator(c, TokenType::Dot, '.', TokenType::DoubleDot)
        } else if c == '@' {
            self.scan_single(c, TokenType::At)
        } else if c == ',' {
            self.scan_single(c, TokenType::Comma)
        } else if c == ';' {
            self.scan_single(c, TokenType::Semicolon)
        } else if c == '(' {
            self.scan_single(c, TokenType::OpenParen)
        } else if c == ')' {
            self.scan_single(c, TokenType::CloseParen)
        } else if c == '{' {
            self.scan_single(c, TokenType::OpenBrace)
        } else if c == '}' {
            self.scan_single(c, TokenType::CloseBrace)
        } else if c == '[' {
            self.scan_single(c, TokenType::OpenBracket)
        } else if c == ']' {
            self.scan_single(c, TokenType::CloseBracket)
        } else {
            let start = self.pos();
            self.bump();
            let end = self.pos();
            Some(spanned(TokenType::InvalidToken, String::new(), start, end))
        };
        proof {
            self.lemma_wf();
            if r is Some {
                lemma_token_spans_ordered(
                    r.unwrap(),
                    self.input(),
                    old(self).offset(),
                    self.offset(),
                    lexeme_kind(old(self).rest()),
                );
            }
        }
        r
    }

    /// The next token: skips whitespace, then reads the token that starts
    /// there. Returns `None` once nothing but whitespace is left, and from
    /// then on always.
    pub fn next(&mut self) -> (r: Option<WithPos<Token>>)
        requires
            old(self).wf(),
        ensures
            final(self).wf(),
            final(self).input() == old(self).input(),
            match r {
                Some(tok) => {
                    &&& lexeme_at(old(self).input(), old(self).offset()) matches Some(lx)
                    &&& final(self).offset() == lx.end
                    &&& token_spans(tok, old(self).input(), lx.start, lx.end, lx.kind)
                    &&& tok.wf()
                    &&& old(self).byte_pos() <= tok.byte_start()
                    &&& tok.byte_end() == final(self).byte_pos()
                    &&& old(self).line() <= tok.line_start()
                    &&& tok.line_end() == final(self).line()
                },
                None => {
                    &&& lexeme_at(old(self).input(), old(self).offset()) is None
                    &&& final(self).offset() == old(self).input().len()
                },
            },
            old(self).offset() == old(self).input().len() ==> r is None,
    {
        let ghost rest = self.rest();
        proof {
            self.lemma_wf();
            lemma_run_len(rest, CharClass::Whitespace);
            lemma_measures_monotonic(
                self.input(),
                self.offset() as int,
                token_start(self.input(), self.offset()) as int,
            );
        }
        loop
            invariant
                self.wf(),
                self.input() == old(self).input(),
                rest == old(self).rest(),
                old(self).offset() <= self.offset() <= self.input().len(),
                forall|i: int|
                    0 <= i < self.offset() - old(self).offset() ==> is_white_space(
                        #[trigger] rest[i],
                    ),
            ensures
                self.offset() == token_start(old(self).input(), old(self).offset()),
            decreases self.input().len() - self.offset(),
        {
            let ghost k = self.offset() - old(self).offset();
            match self.peek() {
                Some(ch) => {
                    assert(ch == rest[k]);
                    if ch.is_whitespace() {
                        self.bump();
                    } else {
                        proof {
                            lemma_run_len_unique(rest, CharClass::Whitespace, k as nat);
                        }
                        break ;
                    }
                },
                None => {
                    proof {
                        lemma_run_len_unique(rest, CharClass::Whitespace, k as nat);
                    }
                    break ;
                },
            }
        }
        self.scan_token()
    }

    /// A builder for one operator token, bound to this cursor.
    pub fn token_matcher(&mut self) -> (m: TokenMatcher<'_>)
        requires
            old(self).wf(),
        ensures
            *m.tokenizer == *old(self),
            *final(m.tokenizer) == *final(self),
            m.start is None,
            m.value is None,
            m.is_prev_match,
    {
        TokenMatcher::new(self)
    }
}

} // verus!
