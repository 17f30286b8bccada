//! Token kinds, their fixed spellings, and the table of reserved words.

use vstd::prelude::*;
use vstd::string::StrSliceExecFns;

pub use crate::tokenizer::Tokenizer;

verus! {

/// The kind of a token.
#[derive(Debug, Clone, Copy, PartialEq, Eq, Structural)]
pub enum TokenType {
    // Keywords
    Let,
    Mut,
    Const,
    Fn,
    If,
    Else,
    Struct,
    Loop,
    For,
    While,
    In,
    Break,
    Continue,
    Return,
    True,
    False,
    Match,
    Impl,
    Trait,
    // Identifiers and literals
    Identifier,
    Int,
    Float,
    String,
    Boolean,
    // Operators
    Plus,
    PlusEq,
    Minus,
    MinusEq,
    Star,
    StarEq,
    Slash,
    SlashEq,
    Percent,
    PercentEq,
    Eq,
    EqEq,
    At,
    Lt,
    LtEq,
    Gt,
    GtEq,
    And,
    AndAnd,
    Pipe,
    Or,
    Bang,
    NotEq,
    // Delimiters
    Comma,
    Semicolon,
    Colon,
    DoubleColon,
    Dot,
    DoubleDot,
    Arrow,
    Underscore,
    OpenParen,
    CloseParen,
    OpenBrace,
    CloseBrace,
    OpenBracket,
    CloseBracket,
    // Sentinels
    InvalidToken,
    Eof,
}

impl TokenType {
    /// One of the nineteen keywords.
    pub open spec fn is_keyword(self) -> bool {
        self is Let || self is Mut || self is Const || self is Fn || self is If || self is Else
            || self is Struct || self is Loop || self is For || self is While || self is In
            || self is Break || self is Continue || self is Return || self is True
            || self is False || self is Match || self is Impl || self is Trait
    }

    /// A kind that a whole word can spell: a keyword, or the lone underscore.
    pub open spec fn is_reserved(self) -> bool {
        self.is_keyword() || self is Underscore
    }

    /// An operator or delimiter that is written with symbols only.
    pub open spec fn is_punctuation(self) -> bool {
        self is Plus || self is PlusEq || self is Minus || self is MinusEq || self is Star
            || self is StarEq || self is Slash || self is SlashEq || self is Percent
            || self is PercentEq || self is Eq || self is EqEq || self is At || self is Lt
            || self is LtEq || self is Gt || self is GtEq || self is And || self is AndAnd
            || self is Pipe || self is Or || self is Bang || self is NotEq || self is Comma
            || self is Semicolon || self is Colon || self is DoubleColon || self is Dot
            || self is DoubleDot || self is Arrow || self is OpenParen || self is CloseParen
            || self is OpenBrace || self is CloseBrace || self is OpenBracket
            || self is CloseBracket
    }

    /// A kind whose token carries its text: an identifier or a literal.
    pub open spec fn carries_text(self) -> bool {
        self is Identifier || self is Int || self is Float || self is String || self is Boolean
    }

    /// Tests [`TokenType::carries_text`].
    pub fn has_text(self) -> (r: bool)
        ensures
            r == self.carries_text(),
    {
        match self {
            TokenType::Identifier
            | TokenType::Int
            | TokenType::Float
            | TokenType::String
            | TokenType::Boolean => true,
            _ => false,
        }
    }
}

/// A token that borrows its text from the input: its kind, and, for
/// identifiers and literals, the characters it was read from. A token of any
/// other kind has the empty text.
#[derive(Debug, Clone, Copy, PartialEq)]
pub struct Token<'a> {
    token_type: TokenType,
    value: &'a str,
}

impl<'a> Token<'a> {
    /// The token's kind.
    pub closed spec fn kind(&self) -> TokenType {
        self.token_type
    }

    /// The token's text.
    pub closed spec fn text(&self) -> Seq<char> {
        self.value@
    }

    /// A token of kind `t` with the text `value`.
    pub fn new(t: TokenType, value: &'a str) -> (tok: Self)
        ensures
            tok.kind() == t,
            tok.text() == value@,
    {
        Self { token_type: t, value }
    }

    /// The token's kind.
    pub fn token_type(&self) -> (k: TokenType)
        ensures
            k == self.kind(),
    {
        self.token_type
    }

    /// The token's text.
    pub fn value(&self) -> (v: &'a str)
        ensures
            v@ == self.text(),
    {
        self.value
    }
}

/// How a kind is written, for the kinds that are always written the same way;
/// empty for the others.
pub open spec fn spelling(kind: TokenType) -> Seq<char> {
    match kind {
        TokenType::Let => "let"@,
        TokenType::Mut => "mut"@,
        TokenType::Const => "const"@,
        TokenType::Fn => "fn"@,
        TokenType::If => "if"@,
        TokenType::Else => "else"@,
        TokenType::Struct => "struct"@,
        TokenType::Loop => "loop"@,
        TokenType::For => "for"@,
        TokenType::While => "while"@,
        TokenType::In => "in"@,
        TokenType::Break => "break"@,
        TokenType::Continue => "continue"@,
        TokenType::Return => "return"@,
        TokenType::True => "true"@,
        TokenType::False => "false"@,
        TokenType::Match => "match"@,
        TokenType::Impl => "impl"@,
        TokenType::Trait => "trait"@,
        TokenType::Plus => "+"@,
        TokenType::PlusEq => "+="@,
        TokenType::Minus => "-"@,
        TokenType::MinusEq => "-="@,
        TokenType::Star => "*"@,
        TokenType::StarEq => "*="@,
        TokenType::Slash => "/"@,
        TokenType::SlashEq => "/="@,
        TokenType::Percent => "%"@,
        TokenType::PercentEq => "%="@,
        TokenType::Eq => "="@,
        TokenType::EqEq => "=="@,
        TokenType::At => "@"@,
        TokenType::Lt => "<"@,
        TokenType::LtEq => "<="@,
        TokenType::Gt => ">"@,
        TokenType::GtEq => ">="@,
        TokenType::And => "&"@,
        TokenType::AndAnd => "&&"@,
        TokenType::Pipe => "|"@,
        TokenType::Or => "||"@,
        TokenType::Bang => "!"@,
        TokenType::NotEq => "!="@,
        TokenType::Comma => ","@,
        TokenType::Semicolon => ";"@,
        TokenType::Colon => ":"@,
        TokenType::DoubleColon => "::"@,
        TokenType::Dot => "."@,
        TokenType::DoubleDot => ".."@,
        TokenType::Arrow => "->"@,
        TokenType::Underscore => "_"@,
        TokenType::OpenParen => "("@,
        TokenType::CloseParen => ")"@,
        TokenType::OpenBrace => "{"@,
        TokenType::CloseBrace => "}"@,
        TokenType::OpenBracket => "["@,
        TokenType::CloseBracket => "]"@,
        _ => Seq::empty(),
    }
}

/// The kind of a whole word: the reserved kind that the word spells, and
/// `Identifier` when it spells none.
pub open spec fn word_kind(text: Seq<char>) -> TokenType {
    if text == spelling(TokenType::Underscore) {
        TokenType::Underscore
    } else if text == spelling(TokenType::Let) {
        TokenType::Let
    } else if text == spelling(TokenType::Mut) {
        TokenType::Mut
    } else if text == spelling(TokenType::Const) {
        TokenType::Const
    } else if text == spelling(TokenType::Fn) {
        TokenType::Fn
    } else if text == spelling(TokenType::If) {
        TokenType::If
    } else if text == spelling(TokenType::Else) {
        TokenType::Else
    } else if text == spelling(TokenType::Struct) {
        TokenType::Struct
    } else if text == spelling(TokenType::Loop) {
        TokenType::Loop
    } else if text == spelling(TokenType::For) {
        TokenType::For
    } else if text == spelling(TokenType::While) {
        TokenType::While
    } else if text == spelling(TokenType::In) {
        TokenType::In
    } else if text == spelling(TokenType::Break) {
        TokenType::Break
    } else if text == spelling(TokenType::Continue) {
        TokenType::Continue
    } else if text == spelling(TokenType::Return) {
        TokenType::Return
    } else if text == spelling(TokenType::True) {
        TokenType::True
    } else if text == spelling(TokenType::False) {
        TokenType::False
    } else if text == spelling(TokenType::Match) {
        TokenType::Match
    } else if text == spelling(TokenType::Impl) {
        TokenType::Impl
    } else if text == spelling(TokenType::Trait) {
        TokenType::Trait
    } else {
        TokenType::Identifier
    }
}

/// What the fixed spellings have in common: none is longer than eight
/// characters, operators and delimiters take one or two, no reserved word is
/// empty, and no two reserved kinds are spelled alike.
pub proof fn lemma_spellings()
    ensures
        forall|k: TokenType| #[trigger] spelling(k).len() <= 8,
        forall|k: TokenType| k.is_punctuation() ==> 1 <= #[trigger] spelling(k).len() <= 2,
        forall|k: TokenType| k.is_reserved() ==> 1 <= #[trigger] spelling(k).len(),
        forall|j: TokenType, k: TokenType|
            j.is_reserved() && k.is_reserved() && #[trigger] spelling(j) == #[trigger] spelling(k)
                ==> j == k,
{
    lemma_spelling_chars();
    assert forall|j: TokenType, k: TokenType|
        j.is_reserved() && k.is_reserved() && #[trigger] spelling(j) == #[trigger] spelling(
            k,
        ) implies j == k by {
        let a = spelling(j);
        let b = spelling(k);
        assert(a.len() == b.len());
        assert(a[0] == b[0]);
        if a.len() > 1 {
            assert(a[1] == b[1]);
        }
        if a.len() > 2 {
            assert(a[2] == b[2]);
        }
    }
}

/// The characters of every fixed spelling.
pub proof fn lemma_spelling_chars()
    ensures
        spelling(TokenType::Let) =~= seq!['l', 'e', 't'],
        spelling(TokenType::Mut) =~= seq!['m', 'u', 't'],
        spelling(TokenType::Const) =~= seq!['c', 'o', 'n', 's', 't'],
        spelling(TokenType::Fn) =~= seq!['f', 'n'],
        spelling(TokenType::If) =~= seq!['i', 'f'],
        spelling(TokenType::Else) =~= seq!['e', 'l', 's', 'e'],
        spelling(TokenType::Struct) =~= seq!['s', 't', 'r', 'u', 'c', 't'],
        spelling(TokenType::Loop) =~= seq!['l', 'o', 'o', 'p'],
        spelling(TokenType::For) =~= seq!['f', 'o', 'r'],
        spelling(TokenType::While) =~= seq!['w', 'h', 'i', 'l', 'e'],
        spelling(TokenType::In) =~= seq!['i', 'n'],
        spelling(TokenType::Break) =~= seq!['b', 'r', 'e', 'a', 'k'],
        spelling(TokenType::Continue) =~= seq!['c', 'o', 'n', 't', 'i', 'n', 'u', 'e'],
        spelling(TokenType::Return) =~= seq!['r', 'e', 't', 'u', 'r', 'n'],
        spelling(TokenType::True) =~= seq!['t', 'r', 'u', 'e'],
        spelling(TokenType::False) =~= seq!['f', 'a', 'l', 's', 'e'],
        spelling(TokenType::Match) =~= seq!['m', 'a', 't', 'c', 'h'],
        spelling(TokenType::Impl) =~= seq!['i', 'm', 'p', 'l'],
        spelling(TokenType::Trait) =~= seq!['t', 'r', 'a', 'i', 't'],
        spelling(TokenType::Plus) =~= seq!['+'],
        spelling(TokenType::PlusEq) =~= seq!['+', '='],
        spelling(TokenType::Minus) =~= seq!['-'],
        spelling(TokenType::MinusEq) =~= seq!['-', '='],
        spelling(TokenType::Star) =~= seq!['*'],
        spelling(TokenType::StarEq) =~= seq!['*', '='],
        spelling(TokenType::Slash) =~= seq!['/'],
        spelling(TokenType::SlashEq) =~= seq!['/', '='],
        spelling(TokenType::Percent) =~= seq!['%'],
        spelling(TokenType::PercentEq) =~= seq!['%', '='],
        spelling(TokenType::Eq) =~= seq!['='],
        spelling(TokenType::EqEq) =~= seq!['=', '='],
        spelling(TokenType::At) =~= seq!['@'],
        spelling(TokenType::Lt) =~= seq!['<'],
        spelling(TokenType::LtEq) =~= seq!['<', '='],
        spelling(TokenType::Gt) =~= seq!['>'],
        spelling(TokenType::GtEq) =~= seq!['>', '='],
        spelling(TokenType::And) =~= seq!['&'],
        spelling(TokenType::AndAnd) =~= seq!['&', '&'],
        spelling(TokenType::Pipe) =~= seq!['|'],
        spelling(TokenType::Or) =~= seq!['|', '|'],
        spelling(TokenType::Bang) =~= seq!['!'],
        spelling(TokenType::NotEq) =~= seq!['!', '='],
        spelling(TokenType::Comma) =~= seq![','],
        spelling(TokenType::Semicolon) =~= seq![';'],
        spelling(TokenType::Colon) =~= seq![':'],
        spelling(TokenType::DoubleColon) =~= seq![':', ':'],
        spelling(TokenType::Dot) =~= seq!['.'],
        spelling(TokenType::DoubleDot) =~= seq!['.', '.'],
        spelling(TokenType::Arrow) =~= seq!['-', '>'],
        spelling(TokenType::Underscore) =~= seq!['_'],
        spelling(TokenType::OpenParen) =~= seq!['('],
        spelling(TokenType::CloseParen) =~= seq![')'],
        spelling(TokenType::OpenBrace) =~= seq!['{'],
        spelling(TokenType::CloseBrace) =~= seq!['}'],
        spelling(TokenType::OpenBracket) =~= seq!['['],
        spelling(TokenType::CloseBracket) =~= seq![']'],
{
    reveal_strlit("let");
    reveal_strlit("mut");
    reveal_strlit("const");
    reveal_strlit("fn");
    reveal_strlit("if");
    reveal_strlit("else");
    reveal_strlit("struct");
    reveal_strlit("loop");
    reveal_strlit("for");
    reveal_strlit("while");
    reveal_strlit("in");
    reveal_strlit("break");
    reveal_strlit("continue");
    reveal_strlit("return");
    reveal_strlit("true");
    reveal_strlit("false");
    reveal_strlit("match");
    reveal_strlit("impl");
    reveal_strlit("trait");
    reveal_strlit("+");
    reveal_strlit("+=");
    reveal_strlit("-");
    reveal_strlit("-=");
    reveal_strlit("*");
    reveal_strlit("*=");
    reveal_strlit("/");
    reveal_strlit("/=");
    reveal_strlit("%");
    reveal_strlit("%=");
    reveal_strlit("=");
    reveal_strlit("==");
    reveal_strlit("@");
    reveal_strlit("<");
    reveal_strlit("<=");
    reveal_strlit(">");
    reveal_strlit(">=");
    reveal_strlit("&");
    reveal_strlit("&&");
    reveal_strlit("|");
    reveal_strlit("||");
    reveal_strlit("!");
    reveal_strlit("!=");
    reveal_strlit(",");
    reveal_strlit(";");
    reveal_strlit(":");
    reveal_strlit("::");
    reveal_strlit(".");
    reveal_strlit("..");
    reveal_strlit("->");
    reveal_strlit("_");
    reveal_strlit("(");
    reveal_strlit(")");
    reveal_strlit("{");
    reveal_strlit("}");
    reveal_strlit("[");
    reveal_strlit("]");
}

/// Whether `text`, which has `n` characters, is the word `word`.
fn is_word(text: &str, n: usize, word: &str) -> (r: bool)
    requires
        n == text@.len(),
    ensures
        r == (text@ == word@),
{
    let m = word.unicode_len();
    if n != m {
        return false;
    }
    let mut i: usize = 0;
    while i < n
        invariant
            n == text@.len(),
            n == word@.len(),
            i <= n,
            forall|j: int| 0 <= j < i ==> text@[j] == word@[j],
        decreases n - i,
    {
        if text.get_char(i) != word.get_char(i) {
            return false;
        }
        i = i + 1;
    }
    assert(text@ =~= word@);
    true
}

/// Looks a whole word up in the table of reserved words.
pub fn classify_word(text: &str) -> (kind: TokenType)
    ensures
        kind == word_kind(text@),
{
    let n = text.unicode_len();
    if is_word(text, n, "_") {
        TokenType::Underscore
    } else if is_word(text, n, "let") {
        TokenType::Let
    } else if is_word(text, n, "mut") {
        TokenType::Mut
    } else if is_word(text, n, "const") {
        TokenType::Const
    } else if is_word(text, n, "fn") {
        TokenType::Fn
    } else if is_word(text, n, "if") {
        TokenType::If
    } else if is_word(text, n, "else") {
        TokenType::Else
    } else if is_word(text, n, "struct") {
        TokenType::Struct
    } else if is_word(text, n, "loop") {
        TokenType::Loop
    } else if is_word(text, n, "for") {
        TokenType::For
    } else if is_word(text, n, "while") {
        TokenType::While
    } else if is_word(text, n, "in") {
        TokenType::In
    } else if is_word(text, n, "break") {
        TokenType::Break
    } else if is_word(text, n, "continue") {
        TokenType::Continue
    } else if is_word(text, n, "return") {
        TokenType::Return
    } else if is_word(text, n, "true") {
        TokenType::True
    } else if is_word(text, n, "false") {
        TokenType::False
    } else if is_word(text, n, "match") {
        TokenType::Match
    } else if is_word(text, n, "impl") {
        TokenType::Impl
    } else if is_word(text, n, "trait") {
        TokenType::Trait
    } else {
        TokenType::Identifier
    }
}

/// A word is given a reserved kind exactly when it is that kind's spelling,
/// and is an identifier exactly when it is no reserved kind's spelling.
pub proof fn lemma_word_partition(text: Seq<char>)
    ensures
        word_kind(text).is_reserved() || word_kind(text) is Identifier,
        forall|k: TokenType|
            k.is_reserved() ==> (word_kind(text) == k <==> text == #[trigger] spelling(k)),
        word_kind(text) is Identifier <==> forall|k: TokenType|
            k.is_reserved() ==> text != #[trigger] spelling(k),
{
    lemma_spellings();
}

} // verus!
