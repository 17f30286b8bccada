//! What a token is: given the text that starts at a token's first character,
//! how far the token reaches and of which kind it is.

use vstd::prelude::*;
use crate::chars::{is_digit, is_ident_start, is_quote, lemma_run_len, run_len, CharClass};
use crate::token::{lemma_spelling_chars, lemma_spellings, spelling, word_kind, TokenType};

verus! {

/// The length of a numeric literal at the start of `s`: a run of digits and
/// `_`, and, where a `.` and a digit follow it, that `.` and a second run.
pub open spec fn number_len(s: Seq<char>) -> nat {
    let whole = run_len(s, CharClass::NumberPart);
    if has_fraction(s) {
        whole + 1 + run_len(s.skip(whole + 1 as int), CharClass::NumberPart)
    } else {
        whole
    }
}

/// Whether the first run of digits in `s` is followed by a `.` and a digit.
pub open spec fn has_fraction(s: Seq<char>) -> bool {
    let whole = run_len(s, CharClass::NumberPart);
    whole + 1 < s.len() && s[whole as int] == '.' && is_digit(s[whole + 1 as int])
}

/// Where a string literal that was opened with `quote` ends, read from index
/// `i` on: just past the first `quote` that no backslash escapes, or at the
/// end of `s` when there is none.
pub open spec fn string_end(s: Seq<char>, quote: char, i: nat) -> nat
    decreases s.len() + 1 - i,
{
    if i >= s.len() {
        s.len()
    } else if s[i as int] == quote {
        i + 1
    } else if s[i as int] == '\\' {
        string_end(s, quote, i + 2)
    } else {
        string_end(s, quote, i + 1)
    }
}

/// Whether the literal read from index `i` on finds its closing `quote`.
pub open spec fn string_closed(s: Seq<char>, quote: char, i: nat) -> bool
    decreases s.len() + 1 - i,
{
    if i >= s.len() {
        false
    } else if s[i as int] == quote {
        true
    } else if s[i as int] == '\\' {
        string_closed(s, quote, i + 2)
    } else {
        string_closed(s, quote, i + 1)
    }
}

/// The operator or delimiter that the single character `a` spells.
pub open spec fn single_kind(a: char) -> Option<TokenType> {
    if a == '+' {
        Some(TokenType::Plus)
    } else if a == '-' {
        Some(TokenType::Minus)
    } else if a == '*' {
        Some(TokenType::Star)
    } else if a == '/' {
        Some(TokenType::Slash)
    } else if a == '%' {
        Some(TokenType::Percent)
    } else if a == '=' {
        Some(TokenType::Eq)
    } else if a == '!' {
        Some(TokenType::Bang)
    } else if a == '<' {
        Some(TokenType::Lt)
    } else if a == '>' {
        Some(TokenType::Gt)
    } else if a == '&' {
        Some(TokenType::And)
    } else if a == '|' {
        Some(TokenType::Pipe)
    } else if a == '@' {
        Some(TokenType::At)
    } else if a == ',' {
        Some(TokenType::Comma)
    } else if a == ';' {
        Some(TokenType::Semicolon)
    } else if a == ':' {
        Some(TokenType::Colon)
    } else if a == '.' {
        Some(TokenType::Dot)
    } else if a == '(' {
        Some(TokenType::OpenParen)
    } else if a == ')' {
        Some(TokenType::CloseParen)
    } else if a == '{' {
        Some(TokenType::OpenBrace)
    } else if a == '}' {
        Some(TokenType::CloseBrace)
    } else if a == '[' {
        Some(TokenType::OpenBracket)
    } else if a == ']' {
        Some(TokenType::CloseBracket)
    } else {
        None
    }
}

/// The operator or delimiter that the two characters `a`, `b` spell together.
pub open spec fn pair_kind(a: char, b: char) -> Option<TokenType> {
    if a == '+' && b == '=' {
        Some(TokenType::PlusEq)
    } else if a == '-' && b == '=' {
        Some(TokenType::MinusEq)
    } else if a == '-' && b == '>' {
        Some(TokenType::Arrow)
    } else if a == '*' && b == '=' {
        Some(TokenType::StarEq)
    } else if a == '/' && b == '=' {
        Some(TokenType::SlashEq)
    } else if a == '%' && b == '=' {
        Some(TokenType::PercentEq)
    } else if a == '=' && b == '=' {
        Some(TokenType::EqEq)
    } else if a == '!' && b == '=' {
        Some(TokenType::NotEq)
    } else if a == '<' && b == '=' {
        Some(TokenType::LtEq)
    } else if a == '>' && b == '=' {
        Some(TokenType::GtEq)
    } else if a == '&' && b == '&' {
        Some(TokenType::AndAnd)
    } else if a == '|' && b == '|' {
        Some(TokenType::Or)
    } else if a == ':' && b == ':' {
        Some(TokenType::DoubleColon)
    } else if a == '.' && b == '.' {
        Some(TokenType::DoubleDot)
    } else {
        None
    }
}

/// The operator or delimiter at the start of `s`: the two-character one where
/// the first two characters spell one, else the one-character one, if any.
pub open spec fn punct_at(s: Seq<char>) -> Option<TokenType> {
    if s.len() >= 2 && pair_kind(s[0], s[1]) is Some {
        pair_kind(s[0], s[1])
    } else if s.len() >= 1 {
        single_kind(s[0])
    } else {
        None
    }
}

/// The length of the token that starts at the first character of `s`.
pub open spec fn lexeme_len(s: Seq<char>) -> nat
    recommends
        s.len() > 0,
{
    if is_ident_start(s[0]) {
        run_len(s, CharClass::IdentPart)
    } else if is_digit(s[0]) {
        number_len(s)
    } else if is_quote(s[0]) {
        string_end(s, s[0], 1)
    } else if punct_at(s) is Some {
        spelling(punct_at(s).unwrap()).len()
    } else {
        1
    }
}

/// The kind of the token that starts at the first character of `s`.
pub open spec fn lexeme_kind(s: Seq<char>) -> TokenType
    recommends
        s.len() > 0,
{
    if is_ident_start(s[0]) {
        word_kind(s.take(run_len(s, CharClass::IdentPart) as int))
    } else if is_digit(s[0]) {
        if has_fraction(s) {
            TokenType::Float
        } else {
            TokenType::Int
        }
    } else if is_quote(s[0]) {
        if string_closed(s, s[0], 1) {
            TokenType::String
        } else {
            TokenType::InvalidToken
        }
    } else if punct_at(s) is Some {
        punct_at(s).unwrap()
    } else {
        TokenType::InvalidToken
    }
}

/// Where the next token starts when reading resumes at index `from`: past
/// the whitespace that stands there.
pub open spec fn token_start(input: Seq<char>, from: nat) -> nat {
    from + run_len(input.skip(from as int), CharClass::Whitespace)
}

/// Where that token ends.
pub open spec fn token_end(input: Seq<char>, from: nat) -> nat {
    let start = token_start(input, from);
    start + lexeme_len(input.skip(start as int))
}

/// A token as the text determines it: its kind, and the indices of its first
/// character and of the character after its last.
pub struct Lexeme {
    pub kind: TokenType,
    pub start: nat,
    pub end: nat,
}

/// The token that is read when reading resumes at index `from`, if any is
/// left.
pub open spec fn lexeme_at(input: Seq<char>, from: nat) -> Option<Lexeme> {
    let start = token_start(input, from);
    if start < input.len() {
        Some(
            Lexeme {
                kind: lexeme_kind(input.skip(start as int)),
                start,
                end: token_end(input, from),
            },
        )
    } else {
        None
    }
}

/// Whether `kind` is an operator or delimiter whose spelling `s` starts with.
pub open spec fn spells_at(s: Seq<char>, kind: TokenType) -> bool {
    kind.is_punctuation() && spelling(kind).is_prefix_of(s)
}

/// The end of a string literal lies past where the reading starts, inside the
/// text; an unclosed literal runs to the end of the text.
pub proof fn lemma_string_end(s: Seq<char>, quote: char, i: nat)
    requires
        i <= s.len(),
    ensures
        i <= string_end(s, quote, i) <= s.len(),
        !string_closed(s, quote, i) ==> string_end(s, quote, i) == s.len(),
        string_closed(s, quote, i) ==> i < string_end(s, quote, i) && s[string_end(s, quote, i)
            - 1] == quote,
    decreases s.len() - i,
{
    if i >= s.len() {
    } else if s[i as int] == quote {
    } else if s[i as int] == '\\' {
        if i + 2 <= s.len() {
            lemma_string_end(s, quote, i + 2);
        } else {
            reveal_with_fuel(string_end, 2);
            reveal_with_fuel(string_closed, 2);
        }
    } else {
        lemma_string_end(s, quote, i + 1);
    }
}

/// A numeric literal is at least its first run of digits and stays in the text.
pub proof fn lemma_number_len(s: Seq<char>)
    ensures
        run_len(s, CharClass::NumberPart) <= number_len(s) <= s.len(),
{
    let whole = run_len(s, CharClass::NumberPart);
    lemma_run_len(s, CharClass::NumberPart);
    if has_fraction(s) {
        lemma_run_len(s.skip(whole + 1 as int), CharClass::NumberPart);
    }
}

/// Every token holds at least one character and ends inside the text.
pub proof fn lemma_lexeme_len(s: Seq<char>)
    requires
        s.len() > 0,
    ensures
        1 <= lexeme_len(s) <= s.len(),
{
    if is_ident_start(s[0]) {
        lemma_run_len(s, CharClass::IdentPart);
    } else if is_digit(s[0]) {
        lemma_number_len(s);
    } else if is_quote(s[0]) {
        lemma_string_end(s, s[0], 1);
    } else if punct_at(s) is Some {
        lemma_spellings();
        lemma_punct_at(s);
    }
}

/// The operator found at the start of a text is one whose spelling the text
/// starts with, and no operator with a longer spelling starts there: where `s`
/// starts with `==`, the one found is `EqEq` and never `Eq`. Where none is
/// found, no operator's spelling starts the text.
pub proof fn lemma_punct_at(s: Seq<char>)
    ensures
        punct_at(s) matches Some(k) ==> spells_at(s, k) && forall|j: TokenType|
            spells_at(s, j) ==> #[trigger] spelling(j).len() <= spelling(k).len(),
        punct_at(s) is None ==> forall|j: TokenType| !#[trigger] spells_at(s, j),
        forall|j: TokenType|
            spells_at(s, j) && #[trigger] spelling(j).len() == 2 ==> punct_at(s) == Some(j),
{
    lemma_punct_spellings();
    assert forall|j: TokenType| spells_at(s, j) implies (spelling(j).len() == 2 ==> punct_at(s)
        == Some(j)) && (spelling(j).len() == 1 ==> single_kind(s[0]) == Some(j)) by {
        let p = spelling(j);
        assert(p == s.subrange(0, p.len() as int));
        assert(p[0] == s[0]);
        if p.len() == 2 {
            assert(p[1] == s[1]);
        }
    }
    if punct_at(s) is Some {
        let p = spelling(punct_at(s).unwrap());
        assert(p =~= s.subrange(0, p.len() as int));
    }
}

/// The tables agree with the spellings: an operator or delimiter is what
/// `single_kind` or `pair_kind` gives for the characters of its spelling, and
/// what they give for one or two characters is spelled with just those.
pub proof fn lemma_punct_spellings()
    ensures
        forall|k: TokenType| k.is_punctuation() ==> 1 <= #[trigger] spelling(k).len() <= 2,
        forall|k: TokenType|
            k.is_punctuation() && #[trigger] spelling(k).len() == 1 ==> single_kind(spelling(k)[0])
                == Some(k),
        forall|k: TokenType|
            k.is_punctuation() && #[trigger] spelling(k).len() == 2 ==> pair_kind(
                spelling(k)[0],
                spelling(k)[1],
            ) == Some(k),
        forall|a: char| #[trigger]
            single_kind(a) matches Some(k) ==> k.is_punctuation() && spelling(k) =~= seq![a],
        forall|a: char, b: char| #[trigger]
            pair_kind(a, b) matches Some(k) ==> k.is_punctuation() && spelling(k) =~= seq![a, b],
{
    lemma_spelling_chars();
}

} // verus!
