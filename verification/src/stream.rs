//! The sequence of tokens that a text holds, and what is true of every such
//! sequence.

use vstd::prelude::*;
use crate::chars::{
    byte_len, is_white_space, lemma_byte_len_concat, lemma_measures_monotonic, lemma_run_len,
    newlines, CharClass,
};
use crate::grammar::{
    lemma_lexeme_len, lemma_punct_at, lemma_punct_spellings, lexeme_at, lexeme_kind, lexeme_len,
    punct_at, spells_at, token_start, Lexeme,
};
use crate::token::{spelling, TokenType};

verus! {

/// Every token that is read from index `from` on, in the order in which
/// repeated reading yields them.
pub open spec fn lexemes(input: Seq<char>, from: nat) -> Seq<Lexeme>
    decreases input.len() - from,
{
    match lexeme_at(input, from) {
        Some(lx) => {
            proof {
                lemma_lexeme_at(input, from);
            }
            seq![lx] + lexemes(input, lx.end)
        },
        None => Seq::empty(),
    }
}

/// The bytes of the tokens read from index `from` on.
pub open spec fn token_bytes(input: Seq<char>, from: nat) -> nat
    decreases input.len() - from,
{
    match lexeme_at(input, from) {
        Some(lx) => {
            proof {
                lemma_lexeme_at(input, from);
            }
            byte_len(input.subrange(lx.start as int, lx.end as int)) + token_bytes(input, lx.end)
        },
        None => 0,
    }
}

/// The bytes of the whitespace skipped when reading from index `from` on.
pub open spec fn skipped_bytes(input: Seq<char>, from: nat) -> nat
    decreases input.len() - from,
{
    let start = token_start(input, from);
    byte_len(input.subrange(from as int, start as int)) + match lexeme_at(input, from) {
        Some(lx) => {
            proof {
                lemma_lexeme_at(input, from);
            }
            skipped_bytes(input, lx.end)
        },
        None => 0,
    }
}

/// A token starts at or after the place where reading resumed, holds at least
/// one character, and ends inside the text; what lies between the place where
/// reading resumed and the token's start is whitespace.
pub proof fn lemma_lexeme_at(input: Seq<char>, from: nat)
    requires
        from <= input.len(),
    ensures
        from <= token_start(input, from) <= input.len(),
        forall|k: int| from <= k < token_start(input, from) ==> is_white_space(#[trigger] input[k]),
        lexeme_at(input, from) matches Some(lx) ==> from <= lx.start < lx.end <= input.len()
            && !is_white_space(input[lx.start as int]),
{
    let rest = input.skip(from as int);
    lemma_run_len(rest, CharClass::Whitespace);
    let start = token_start(input, from);
    assert forall|k: int| from <= k < start implies is_white_space(#[trigger] input[k]) by {
        assert(input[k] == rest[k - from]);
    }
    if start < input.len() {
        lemma_lexeme_len(input.skip(start as int));
        assert(input[start as int] == rest[start - from]);
    }
}

/// Nothing is dropped: every character from `from` on lies inside a token or
/// is whitespace that was skipped.
pub proof fn lemma_stream_covers(input: Seq<char>, from: nat, k: int)
    requires
        from <= k < input.len(),
    ensures
        is_white_space(input[k]) || exists|i: int|
            0 <= i < lexemes(input, from).len() && (#[trigger] lexemes(input, from)[i]).start <= k
                < lexemes(input, from)[i].end,
    decreases input.len() - from,
{
    lemma_lexeme_at(input, from);
    match lexeme_at(input, from) {
        Some(lx) => {
            let ls = lexemes(input, from);
            if k < lx.start {
            } else if k < lx.end {
                assert(ls[0] == lx);
            } else {
                lemma_stream_covers(input, lx.end, k);
                if !is_white_space(input[k]) {
                    let tail = lexemes(input, lx.end);
                    let i = choose|i: int|
                        0 <= i < tail.len() && (#[trigger] tail[i]).start <= k < tail[i].end;
                    assert(ls[i + 1] == tail[i]);
                }
            }
        },
        None => {},
    }
}

/// The bytes of the tokens and the bytes of the whitespace skipped between and
/// around them add up to the bytes of the text that was read: nothing is left
/// out and nothing is counted twice.
pub proof fn lemma_stream_covers_bytes(input: Seq<char>, from: nat)
    requires
        from <= input.len(),
    ensures
        token_bytes(input, from) + skipped_bytes(input, from) == byte_len(input.skip(from as int)),
        from == 0 ==> token_bytes(input, 0) + skipped_bytes(input, 0) == byte_len(input),
    decreases input.len() - from,
{
    assert(input.skip(0) =~= input);
    lemma_lexeme_at(input, from);
    let start = token_start(input, from);
    let rest = input.skip(from as int);
    match lexeme_at(input, from) {
        Some(lx) => {
            lemma_stream_covers_bytes(input, lx.end);
            let a = input.subrange(from as int, start as int);
            let b = input.subrange(lx.start as int, lx.end as int);
            let c = input.skip(lx.end as int);
            assert(rest =~= a + (b + c));
            lemma_byte_len_concat(a, b + c);
            lemma_byte_len_concat(b, c);
        },
        None => {
            assert(rest =~= input.subrange(from as int, start as int));
        },
    }
}

/// The tokens read from `from` on lie in the text in the order in which they
/// are read, each inside the text and none overlapping the next, in
/// characters, in bytes and in lines.
pub proof fn lemma_stream_ordered(input: Seq<char>, from: nat)
    requires
        from <= input.len(),
    ensures
        forall|i: int|
            0 <= i < lexemes(input, from).len() ==> from <= (#[trigger] lexemes(
                input,
                from,
            )[i]).start < lexemes(input, from)[i].end <= input.len(),
        forall|i: int, j: int|
            0 <= i < j < lexemes(input, from).len() ==> {
                let a = #[trigger] lexemes(input, from)[i];
                let b = #[trigger] lexemes(input, from)[j];
                &&& a.end <= b.start
                &&& byte_len(input.take(a.end as int)) <= byte_len(input.take(b.start as int))
                &&& newlines(input.take(a.end as int)) <= newlines(input.take(b.start as int))
            },
    decreases input.len() - from,
{
    lemma_lexeme_at(input, from);
    match lexeme_at(input, from) {
        Some(lx) => {
            let ls = lexemes(input, from);
            let tail = lexemes(input, lx.end);
            lemma_stream_ordered(input, lx.end);
            assert forall|i: int| 0 <= i < ls.len() implies from <= (#[trigger] ls[i]).start
                < ls[i].end <= input.len() by {
                if i > 0 {
                    assert(ls[i] == tail[i - 1]);
                }
            }
            assert forall|i: int, j: int| 0 <= i < j < ls.len() implies ({
                let a = #[trigger] ls[i];
                let b = #[trigger] ls[j];
                &&& a.end <= b.start
                &&& byte_len(input.take(a.end as int)) <= byte_len(input.take(b.start as int))
                &&& newlines(input.take(a.end as int)) <= newlines(input.take(b.start as int))
            }) by {
                assert(ls[j] == tail[j - 1]);
                if i > 0 {
                    assert(ls[i] == tail[i - 1]);
                }
                lemma_measures_monotonic(input, ls[i].end as int, ls[j].start as int);
            }
        },
        None => {},
    }
}

/// Once reading finds no token, it never finds one again. Reading that finds
/// no token has skipped to the end of the text, where `next` leaves the
/// cursor; and reading from the end of the text finds no token.
pub proof fn lemma_exhaustion_is_stable(input: Seq<char>, from: nat)
    requires
        from <= input.len(),
        lexeme_at(input, from) is None,
    ensures
        token_start(input, from) == input.len(),
        lexeme_at(input, input.len()) is None,
        lexemes(input, from) =~= Seq::empty(),
        lexemes(input, input.len()) =~= Seq::empty(),
{
    lemma_lexeme_at(input, from);
    assert(input.skip(input.len() as int) =~= Seq::<char>::empty());
}

/// The longest spelling wins. Where the text starts with the spelling of an
/// operator or delimiter, the token read there is an operator or delimiter,
/// its spelling is the start of the text, and no operator or delimiter with a
/// longer spelling starts the text. Where `==` stands, one `EqEq` is read, not
/// `Eq`.
pub proof fn lemma_maximal_munch(s: Seq<char>, shorter: TokenType)
    requires
        spells_at(s, shorter),
    ensures
        spells_at(s, lexeme_kind(s)),
        lexeme_len(s) == spelling(lexeme_kind(s)).len(),
        spelling(shorter).len() <= lexeme_len(s),
        spelling(shorter).len() == lexeme_len(s) ==> lexeme_kind(s) == shorter,
{
    lemma_punct_spellings();
    lemma_punct_at(s);
    let p = spelling(shorter);
    assert(p[0] == s[0]);
    assert(punct_at(s) is Some);
    let k = punct_at(s).unwrap();
    let q = spelling(k);
    assert(q[0] == s[0]);
    if p.len() == q.len() {
        assert(p =~= q) by {
            assert(p == s.subrange(0, p.len() as int));
            assert(q == s.subrange(0, q.len() as int));
        }
        if p.len() == 2 {
            assert(p[1] == s[1]);
        }
    }
}

} // verus!
