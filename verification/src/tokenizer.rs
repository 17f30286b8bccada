//! The tokenizer that reads through a `scanny` cursor.

use scanny::Scanny;
use vstd::prelude::*;
use crate::chars::{
    byte_len, digit, first, ident_start, is_digit, is_ident_start, lemma_measures_bounded,
    lemma_measures_monotonic, lemma_run_len, newlines, quote, run_len, CharClass,
};
use crate::cursor::{
    begin, bump, consume_while, finish, match_char, open, peek, peek_second, scanny_state,
    skip_while, Lexed, ScanState,
};
use crate::grammar::{
    has_fraction, lemma_punct_spellings, lexeme_at, lexeme_kind, lexeme_len, number_len,
    pair_kind, single_kind, string_closed, string_end, token_start,
};
use crate::pos::WithPos;
use crate::token::{classify_word, word_kind, Token, TokenType};

verus! {

/// Whether `tok` is the token of kind `kind` read from the characters from
/// index `from` up to index `to` of `input`: it has that kind, its text is
/// those characters if the kind carries text and empty if not, and its spans
/// are the bytes and lines of that part of the text, both counted from zero.
pub open spec fn token_covers(
    tok: WithPos<Token<'_>>,
    input: Seq<char>,
    from: nat,
    to: nat,
    kind: TokenType,
) -> bool {
    &&& tok.value.kind() == kind
    &&& tok.value.text() == if kind.carries_text() {
        input.subrange(from as int, to as int)
    } else {
        Seq::empty()
    }
    &&& tok.byte_start() == byte_len(input.take(from as int))
    &&& tok.byte_end() == byte_len(input.take(to as int))
    &&& tok.line_start() == newlines(input.take(from as int))
    &&& tok.line_end() == newlines(input.take(to as int))
}

/// A cursor between tokens: inside its text, with no trial in progress.
pub open spec fn at_rest(s: ScanState) -> bool {
    s.wf() && s.trial is None
}

/// Whether the cursor went from `before`, at rest, to `after`, at rest `n`
/// characters further on in the same text, and `r` is the token of kind `kind`
/// read from those characters.
pub open spec fn took(
    before: ScanState,
    after: ScanState,
    r: Option<WithPos<Token<'_>>>,
    n: nat,
    kind: TokenType,
) -> bool {
    &&& at_rest(after)
    &&& after.text == before.text
    &&& after.at == before.at + n
    &&& r matches Some(tok) && token_covers(tok, before.text, before.at, before.at + n, kind)
}

/// A token read from part of a text does not end before it starts.
pub proof fn lemma_token_covers_ordered(
    tok: WithPos<Token<'_>>,
    input: Seq<char>,
    from: nat,
    to: nat,
    kind: TokenType,
)
    requires
        token_covers(tok, input, from, to, kind),
        from <= to <= input.len(),
    ensures
        tok.wf(),
{
    lemma_measures_monotonic(input, from as int, to as int);
}

/// The token of the given kind with the spans of a finished trial, and with
/// its text where the kind carries text. The cursor counts lines from one, the
/// token from zero.
fn positioned<'a>(kind: TokenType, lx: Lexed<'a>) -> (tok: WithPos<Token<'a>>)
    requires
        lx.line_start >= 1,
        lx.line_end >= 1,
    ensures
        tok.value.kind() == kind,
        tok.value.text() == if kind.carries_text() {
            lx.text@
        } else {
            Seq::empty()
        },
        tok.byte_start() == lx.byte_start,
        tok.byte_end() == lx.byte_end,
        tok.line_start() == lx.line_start - 1,
        tok.line_end() == lx.line_end - 1,
{
    let text = if kind.has_text() {
        lx.text
    } else {
        proof {
            reveal_strlit("");
        }
        assert(""@ =~= Seq::<char>::empty());
        ""
    };
    WithPos::new(Token::new(kind, text)).set_byte_pos(lx.byte_start..lx.byte_end).set_line_pos(
        lx.line_start - 1..lx.line_end - 1,
    )
}

/// The operator or delimiter that opens with `a`, given the character that
/// follows `a`, and whether it takes both characters.
pub fn operator_for(a: char, b: Option<char>) -> (r: Option<(TokenType, bool)>)
    ensures
        match r {
            Some((kind, long)) => if long {
                b matches Some(c) && pair_kind(a, c) == Some(kind)
            } else {
                single_kind(a) == Some(kind) && !(b matches Some(c) && pair_kind(a, c) is Some)
            },
            None => single_kind(a) is None && !(b matches Some(c) && pair_kind(a, c) is Some),
        },
{
    let (one, follow, two) = if a == '+' {
        (TokenType::Plus, '=', TokenType::PlusEq)
    } else if a == '-' {
        match b {
            Some(c) => {
                if c == '>' {
                    return Some((TokenType::Arrow, true));
                }
            },
            None => {},
        }
        (TokenType::Minus, '=', TokenType::MinusEq)
    } else if a == '*' {
        (TokenType::Star, '=', TokenType::StarEq)
    } else if a == '/' {
        (TokenType::Slash, '=', TokenType::SlashEq)
    } else if a == '%' {
        (TokenType::Percent, '=', TokenType::PercentEq)
    } else if a == '=' {
        (TokenType::Eq, '=', TokenType::EqEq)
    } else if a == '!' {
        (TokenType::Bang, '=', TokenType::NotEq)
    } else if a == '<' {
        (TokenType::Lt, '=', TokenType::LtEq)
    } else if a == '>' {
        (TokenType::Gt, '=', TokenType::GtEq)
    } else if a == '&' {
        (TokenType::And, '&', TokenType::AndAnd)
    } else if a == '|' {
        (TokenType::Pipe, '|', TokenType::Or)
    } else if a == ':' {
        (TokenType::Colon, ':', TokenType::DoubleColon)
    } else if a == '.' {
        (TokenType::Dot, '.', TokenType::DoubleDot)
    } else if a == '@' {
        return Some((TokenType::At, false));
    } else if a == ',' {
        return Some((TokenType::Comma, false));
    } else if a == ';' {
        return Some((TokenType::Semicolon, false));
    } else if a == '(' {
        return Some((TokenType::OpenParen, false));
    } else if a == ')' {
        return Some((TokenType::CloseParen, false));
    } else if a == '{' {
        return Some((TokenType::OpenBrace, false));
    } else if a == '}' {
        return Some((TokenType::CloseBrace, false));
    } else if a == '[' {
        return Some((TokenType::OpenBracket, false));
    } else if a == ']' {
        return Some((TokenType::CloseBracket, false));
    } else {
        return None;
    };
    match b {
        Some(c) => {
            if c == follow {
                Some((two, true))
            } else {
                Some((one, false))
            }
        },
        None => Some((one, false)),
    }
}

/// Reads one character as a token of kind `t`.
fn consume_single_char_token<'a>(sc: &mut Scanny<'a>, t: TokenType) -> (r: Option<
    WithPos<Token<'a>>,
>)
    requires
        at_rest(scanny_state(*old(sc))),
        scanny_state(*old(sc)).pending().len() >= 1,
    ensures
        took(scanny_state(*old(sc)), scanny_state(*final(sc)), r, 1, t),
{
    begin(sc);
    match_char(sc, CharClass::Any);
    match finish(sc) {
        Some(lx) => Some(positioned(t, lx)),
        None => None,
    }
}

/// Reads two characters as a token of kind `t`.
fn consume_double_char_token<'a>(sc: &mut Scanny<'a>, t: TokenType) -> (r: Option<
    WithPos<Token<'a>>,
>)
    requires
        at_rest(scanny_state(*old(sc))),
        scanny_state(*old(sc)).pending().len() >= 2,
    ensures
        took(scanny_state(*old(sc)), scanny_state(*final(sc)), r, 2, t),
{
    let ghost s = scanny_state(*sc);
    begin(sc);
    match_char(sc, CharClass::Any);
    assert(scanny_state(*sc).pending() =~= s.pending().skip(1));
    match_char(sc, CharClass::Any);
    match finish(sc) {
        Some(lx) => Some(positioned(t, lx)),
        None => None,
    }
}

/// Reads a numeric literal, whose first digit is the next character: the
/// longest run of digits and `_`, and, where a `.` and a digit follow, that
/// `.` and a second such run.
fn consume_number<'a>(sc: &mut Scanny<'a>) -> (r: Option<WithPos<Token<'a>>>)
    requires
        at_rest(scanny_state(*old(sc))),
        scanny_state(*old(sc)).pending().len() >= 1,
        is_digit(scanny_state(*old(sc)).pending()[0]),
    ensures
        took(
            scanny_state(*old(sc)),
            scanny_state(*final(sc)),
            r,
            number_len(scanny_state(*old(sc)).pending()),
            if has_fraction(scanny_state(*old(sc)).pending()) {
                TokenType::Float
            } else {
                TokenType::Int
            },
        ),
{
    let ghost s = scanny_state(*sc);
    let ghost p = s.pending();
    let ghost whole = run_len(p, CharClass::NumberPart);
    proof {
        lemma_run_len(p, CharClass::NumberPart);
        lemma_run_len(p.skip(whole + 1 as int), CharClass::NumberPart);
        assert(p.drop_first() =~= p.skip(1));
    }
    begin(sc);
    match_char(sc, CharClass::Digit);
    assert(scanny_state(*sc).pending() =~= p.skip(1));
    consume_while(sc, CharClass::NumberPart);
    assert(scanny_state(*sc).pending() =~= p.skip(whole as int));
    let dot = match peek(sc) {
        Some(c) => c == '.',
        None => false,
    };
    let fraction = dot && match peek_second(sc) {
        Some(d) => digit(d),
        None => false,
    };
    assert(fraction == has_fraction(p));
    if fraction {
        bump(sc);
        assert(scanny_state(*sc).pending() =~= p.skip(whole + 1 as int));
        consume_while(sc, CharClass::NumberPart);
    }
    match finish(sc) {
        Some(lx) => {
            let kind = if !lx.complete {
                TokenType::InvalidToken
            } else if fraction {
                TokenType::Float
            } else {
                TokenType::Int
            };
            Some(positioned(kind, lx))
        },
        None => None,
    }
}

/// Reads an identifier or reserved word, whose first character is the next
/// one: the longest run of letters, digits and `_`, with the kind that the
/// table of reserved words gives it.
fn consume_keywords<'a>(sc: &mut Scanny<'a>) -> (r: Option<WithPos<Token<'a>>>)
    requires
        at_rest(scanny_state(*old(sc))),
        scanny_state(*old(sc)).pending().len() >= 1,
        is_ident_start(scanny_state(*old(sc)).pending()[0]),
    ensures
        took(
            scanny_state(*old(sc)),
            scanny_state(*final(sc)),
            r,
            run_len(scanny_state(*old(sc)).pending(), CharClass::IdentPart),
            word_kind(
                scanny_state(*old(sc)).pending().take(
                    run_len(scanny_state(*old(sc)).pending(), CharClass::IdentPart) as int,
                ),
            ),
        ),
{
    let ghost s = scanny_state(*sc);
    let ghost p = s.pending();
    proof {
        lemma_run_len(p, CharClass::IdentPart);
        assert(p.drop_first() =~= p.skip(1));
    }
    begin(sc);
    match_char(sc, CharClass::IdentStart);
    assert(scanny_state(*sc).pending() =~= p.skip(1));
    consume_while(sc, CharClass::IdentPart);
    match finish(sc) {
        Some(lx) => {
            proof {
                let n = run_len(p, CharClass::IdentPart);
                assert(lx.text@ =~= p.take(n as int));
            }
            let kind = if !lx.complete {
                TokenType::InvalidToken
            } else {
                classify_word(lx.text)
            };
            Some(positioned(kind, lx))
        },
        None => None,
    }
}

/// Reads a string literal, whose opening quote is the next character:
/// everything up to and including the next quote of the same kind that no
/// backslash escapes, as a `String`; or, where the text ends first, everything
/// up to the end, as an `InvalidToken`.
fn consume_string<'a>(sc: &mut Scanny<'a>, q: char) -> (r: Option<WithPos<Token<'a>>>)
    requires
        at_rest(scanny_state(*old(sc))),
        scanny_state(*old(sc)).pending().len() >= 1,
        scanny_state(*old(sc)).pending()[0] == q,
    ensures
        took(
            scanny_state(*old(sc)),
            scanny_state(*final(sc)),
            r,
            string_end(scanny_state(*old(sc)).pending(), q, 1),
            if string_closed(scanny_state(*old(sc)).pending(), q, 1) {
                TokenType::String
            } else {
                TokenType::InvalidToken
            },
        ),
{
    let ghost s = scanny_state(*sc);
    let ghost p = s.pending();
    begin(sc);
    bump(sc);
    let mut closed = false;
    let ghost mut i: nat = 1;
    loop
        invariant_except_break
            !closed,
            string_end(p, q, i) == string_end(p, q, 1),
            string_closed(p, q, i) == string_closed(p, q, 1),
        invariant
            s.wf(),
            s.trial is None,
            p == s.pending(),
            1 <= i <= p.len(),
            scanny_state(*sc) == (ScanState {
                trial: Some(crate::cursor::Trial { at: s.at + i, matched: false, open: true }),
                ..s
            }),
        ensures
            i == string_end(p, q, 1),
            closed == string_closed(p, q, 1),
        decreases p.len() - i,
    {
        assert(scanny_state(*sc).pending() =~= p.skip(i as int));
        match bump(sc) {
            None => {
                break ;
            },
            Some(c) => {
                proof {
                    i = i + 1;
                }
                if c == q {
                    closed = true;
                    break ;
                } else if c == '\\' {
                    assert(scanny_state(*sc).pending() =~= p.skip(i as int));
                    match bump(sc) {
                        Some(e) => {
                            proof {
                                i = i + 1;
                            }
                        },
                        None => {
                            reveal_with_fuel(string_end, 2);
                            reveal_with_fuel(string_closed, 2);
                        },
                    }
                }
            },
        }
    }
    match finish(sc) {
        Some(lx) => {
            let kind = if closed {
                TokenType::String
            } else {
                TokenType::InvalidToken
            };
            Some(positioned(kind, lx))
        },
        None => None,
    }
}

/// Reads the token that starts at the next character, which is `c`.
fn consume_token<'a>(sc: &mut Scanny<'a>, c: char) -> (r: Option<WithPos<Token<'a>>>)
    requires
        at_rest(scanny_state(*old(sc))),
        first(scanny_state(*old(sc)).pending()) == Some(c),
    ensures
        took(
            scanny_state(*old(sc)),
            scanny_state(*final(sc)),
            r,
            lexeme_len(scanny_state(*old(sc)).pending()),
            lexeme_kind(scanny_state(*old(sc)).pending()),
        ),
{
    proof {
        lemma_punct_spellings();
    }
    if ident_start(c) {
        consume_keywords(sc)
    } else if digit(c) {
        consume_number(sc)
    } else if quote(c) {
        consume_string(sc, c)
    } else {
        match operator_for(c, peek_second(sc)) {
            Some((kind, long)) => {
                if long {
                    consume_double_char_token(sc, kind)
                } else {
                    consume_single_char_token(sc, kind)
                }
            },
            None => consume_single_char_token(sc, TokenType::InvalidToken),
        }
    }
}

/// A tokenizer over a text: each call of [`Tokenizer::next`] reads one token.
pub struct Tokenizer<'a> {
    sc: Scanny<'a>,
}

impl<'a> Tokenizer<'a> {
    /// The whole text.
    pub closed spec fn input(&self) -> Seq<char> {
        scanny_state(self.sc).text
    }

    /// How many characters have been consumed.
    pub closed spec fn offset(&self) -> nat {
        scanny_state(self.sc).at
    }

    /// The tokenizer stands between tokens, inside its text.
    pub closed spec fn wf(&self) -> bool {
        at_rest(scanny_state(self.sc))
    }

    /// A well-formed tokenizer is inside its text, and has read no more lines
    /// than bytes and no more bytes than the text holds.
    pub proof fn lemma_wf(&self)
        requires
            self.wf(),
        ensures
            self.offset() <= self.input().len(),
            self.rest().len() == self.input().len() - self.offset(),
            self.line() <= self.byte_pos() <= byte_len(self.input()),
    {
        let input = self.input();
        lemma_measures_monotonic(input, self.offset() as int, input.len() as int);
        assert(input.take(input.len() as int) =~= input);
        lemma_measures_bounded(input.take(self.offset() as int));
    }

    /// A tokenizer at the start of `value`.
    pub fn new(value: &'a str) -> (t: Self)
        ensures
            t.wf(),
            t.input() == value@,
            t.offset() == 0,
    {
        Self { sc: open(value) }
    }

    /// The part of the text that is still to be read.
    pub open spec fn rest(&self) -> Seq<char> {
        self.input().skip(self.offset() as int)
    }

    /// The byte offset of the next character.
    pub open spec fn byte_pos(&self) -> nat {
        byte_len(self.input().take(self.offset() as int))
    }

    /// The line of the next character, counted from zero.
    pub open spec fn line(&self) -> nat {
        newlines(self.input().take(self.offset() as int))
    }

    /// Reads the token that starts at the next character, whatever that
    /// character is: an identifier or reserved word, a number, a string, an
    /// operator or delimiter in its longest spelling, or, for a character that
    /// opens none of these, an `InvalidToken` of that one character. At the
    /// end of the text there is no token.
    pub fn scan_token(&mut self) -> (r: Option<WithPos<Token<'a>>>)
        requires
            old(self).wf(),
        ensures
            final(self).wf(),
            final(self).input() == old(self).input(),
            match r {
                Some(tok) => {
                    let n = lexeme_len(old(self).rest());
                    &&& old(self).rest().len() > 0
                    &&& final(self).offset() == old(self).offset() + n
                    &&& token_covers(
                        tok,
                        old(self).input(),
                        old(self).offset(),
                        old(self).offset() + n,
                        lexeme_kind(old(self).rest()),
                    )
                    &&& tok.wf()
                },
                None => old(self).rest().len() == 0 && final(self).offset() == old(self).offset(),
            },
    {
        let r = match peek(&self.sc) {
            Some(c) => consume_token(&mut self.sc, c),
            None => None,
        };
        proof {
            if r is Some {
                lemma_token_covers_ordered(
                    r.unwrap(),
                    self.input(),
                    old(self).offset(),
                    self.offset(),
                    lexeme_kind(old(self).rest()),
                );
            }
        }
        r
    }

    /// The next token: skips whitespace, then reads the token that starts
    /// there. Returns `None` once nothing but whitespace is left, and from
    /// then on always.
    pub fn next(&mut self) -> (r: Option<WithPos<Token<'a>>>)
        requires
            old(self).wf(),
        ensures
            final(self).wf(),
            final(self).input() == old(self).input(),
            match r {
                Some(tok) => {
                    &&& lexeme_at(old(self).input(), old(self).offset()) matches Some(lx)
                    &&& final(self).offset() == lx.end
                    &&& token_covers(tok, old(self).input(), lx.start, lx.end, lx.kind)
                    &&& tok.wf()
                    &&& old(self).byte_pos() <= tok.byte_start()
                    &&& tok.byte_end() == final(self).byte_pos()
                    &&& old(self).line() <= tok.line_start()
                    &&& tok.line_end() == final(self).line()
                },
                None => {
                    &&& lexeme_at(old(self).input(), old(self).offset()) is None
                    &&& final(self).offset() == old(self).input().len()
                },
            },
            old(self).offset() == old(self).input().len() ==> r is None,
    {
        proof {
            lemma_run_len(scanny_state(self.sc).pending(), CharClass::Whitespace);
            lemma_measures_monotonic(
                self.input(),
                self.offset() as int,
                token_start(self.input(), self.offset()) as int,
            );
        }
        skip_while(&mut self.sc, CharClass::Whitespace);
        self.scan_token()
    }
}

} // verus!
