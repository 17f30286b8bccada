use xts_syntax::pos::WithPos;
use xts_syntax::token::TokenType;
use xts_syntax::{Scanner, Token};

fn plain(
    kind: TokenType,
    bytes: std::ops::Range<usize>,
    lines: std::ops::Range<usize>,
) -> WithPos<Token> {
    WithPos::new(Token::new(kind)).set_byte_pos(bytes).set_line_pos(lines)
}

fn texted(
    kind: TokenType,
    text: &str,
    bytes: std::ops::Range<usize>,
    lines: std::ops::Range<usize>,
) -> WithPos<Token> {
    WithPos::new(Token::new(kind).value(text.to_owned())).set_byte_pos(bytes).set_line_pos(lines)
}

fn all(input: &str) -> Vec<WithPos<Token>> {
    let mut sc = Scanner::new(input);
    let mut out = Vec::new();
    while let Some(tok) = sc.next() {
        out.push(tok);
    }
    assert_eq!(sc.next(), None);
    out
}

fn kinds(input: &str) -> Vec<TokenType> {
    all(input).iter().map(|t| t.value.token_type()).collect()
}

#[test]
fn match_token() {
    let input = "===let abc";
    let mut sc = Scanner::new(input);
    assert_eq!(
        sc.next().unwrap(),
        WithPos::new(Token::new(TokenType::EqEq))
            .set_byte_pos(0..2)
            .set_line_pos(0..0)
    );
    assert_eq!(
        sc.next().unwrap(),
        WithPos::new(Token::new(TokenType::Eq))
            .set_byte_pos(2..3)
            .set_line_pos(0..0)
    );
    assert_eq!(
        sc.next().unwrap(),
        WithPos::new(Token::new(TokenType::Let))
            .set_byte_pos(3..6)
            .set_line_pos(0..0)
    );
    assert_eq!(
        sc.next().unwrap(),
        WithPos::new(Token::new(TokenType::Identifier).value("abc".to_owned()))
            .set_byte_pos(7..10)
            .set_line_pos(0..0)
    );
    assert_eq!(sc.next(), None);
}

#[test]
fn cursor_peeks_without_consuming() {
    let mut sc = Scanner::new("ab");
    assert_eq!(sc.peek(), Some('a'));
    assert_eq!(sc.peek(), Some('a'));
    assert_eq!(sc.pos(), (0, 0));
    assert_eq!(sc.bump(), Some('a'));
    assert_eq!(sc.peek(), Some('b'));
    assert_eq!(sc.bump(), Some('b'));
    assert_eq!(sc.peek(), None);
    assert_eq!(sc.bump(), None);
    assert_eq!(sc.bump(), None);
    assert_eq!(sc.pos(), (0, 2));
}

#[test]
fn cursor_counts_bytes_by_utf8_width() {
    // one, two, three and four bytes
    let mut sc = Scanner::new("a\u{df}\u{20ac}\u{1f600}");
    sc.bump();
    assert_eq!(sc.pos(), (0, 1));
    sc.bump();
    assert_eq!(sc.pos(), (0, 3));
    sc.bump();
    assert_eq!(sc.pos(), (0, 6));
    sc.bump();
    assert_eq!(sc.pos(), (0, 10));
    assert_eq!(sc.bump(), None);
    assert_eq!(sc.pos(), (0, 10));
}

#[test]
fn cursor_counts_a_line_per_newline() {
    let mut sc = Scanner::new("a\n\nb\r\n");
    sc.bump();
    assert_eq!(sc.pos(), (0, 1));
    sc.bump();
    assert_eq!(sc.pos(), (1, 2));
    sc.bump();
    assert_eq!(sc.pos(), (2, 3));
    sc.bump();
    assert_eq!(sc.pos(), (2, 4));
    sc.bump();
    assert_eq!(sc.pos(), (2, 5));
    sc.bump();
    assert_eq!(sc.pos(), (3, 6));
}

#[test]
fn empty_text_has_no_character() {
    let mut sc = Scanner::new("");
    assert_eq!(sc.peek(), None);
    assert_eq!(sc.bump(), None);
    assert_eq!(sc.pos(), (0, 0));
    assert_eq!(sc.next(), None);
}

#[test]
fn consume_while_stops_before_the_first_mismatch() {
    let mut sc = Scanner::new("aaab");
    assert_eq!(sc.consume_while(|c| c == 'a'), "aaa");
    assert_eq!(sc.peek(), Some('b'));
    assert_eq!(sc.pos(), (0, 3));
    assert_eq!(sc.consume_while(|c| c == 'a'), "");
    assert_eq!(sc.peek(), Some('b'));
}

#[test]
fn consume_while_runs_to_the_end() {
    let mut sc = Scanner::new("\u{e9}\u{e9}");
    assert_eq!(sc.consume_while(|_| true), "\u{e9}\u{e9}");
    assert_eq!(sc.peek(), None);
    assert_eq!(sc.pos(), (0, 4));
    assert_eq!(sc.consume_while(|_| true), "");
}

#[test]
fn identifier_scan_takes_the_whole_run() {
    let mut sc = Scanner::new("foo_1bar+");
    assert_eq!(
        sc.consume_identifier(),
        Some(texted(TokenType::Identifier, "foo_1bar", 0..8, 0..0))
    );
    assert_eq!(sc.peek(), Some('+'));
}

#[test]
fn identifier_scan_refuses_other_leads() {
    let mut sc = Scanner::new("1abc");
    assert_eq!(sc.consume_identifier(), None);
    assert_eq!(sc.pos(), (0, 0));
    assert_eq!(sc.peek(), Some('1'));
    let mut end = Scanner::new("");
    assert_eq!(end.consume_identifier(), None);
}

#[test]
fn every_reserved_word_has_its_kind() {
    let table = [
        ("let", TokenType::Let),
        ("mut", TokenType::Mut),
        ("const", TokenType::Const),
        ("fn", TokenType::Fn),
        ("if", TokenType::If),
        ("else", TokenType::Else),
        ("struct", TokenType::Struct),
        ("loop", TokenType::Loop),
        ("for", TokenType::For),
        ("while", TokenType::While),
        ("in", TokenType::In),
        ("break", TokenType::Break),
        ("continue", TokenType::Continue),
        ("return", TokenType::Return),
        ("true", TokenType::True),
        ("false", TokenType::False),
        ("match", TokenType::Match),
        ("impl", TokenType::Impl),
        ("trait", TokenType::Trait),
        ("_", TokenType::Underscore),
    ];
    for (word, kind) in table {
        let mut sc = Scanner::new(word);
        assert_eq!(sc.consume_identifier(), Some(plain(kind, 0..word.len(), 0..0)));
        assert_eq!(sc.next(), None);
    }
}

#[test]
fn near_misses_of_reserved_words_are_identifiers() {
    for word in ["Let", "lets", "le", "LET", "__", "_a", "iff", "truee", "fn_"] {
        let mut sc = Scanner::new(word);
        assert_eq!(
            sc.next(),
            Some(texted(TokenType::Identifier, word, 0..word.len(), 0..0))
        );
        assert_eq!(sc.next(), None);
    }
}

#[test]
fn float_with_fraction() {
    assert_eq!(all("12.5"), vec![texted(TokenType::Float, "12.5", 0..4, 0..0)]);
}

#[test]
fn dot_without_digit_is_left_alone() {
    assert_eq!(
        all("12."),
        vec![texted(TokenType::Int, "12", 0..2, 0..0), plain(TokenType::Dot, 2..3, 0..0)]
    );
}

#[test]
fn number_scan_direct() {
    let mut sc = Scanner::new("1_000.2_5.x");
    assert_eq!(sc.consume_number(), Some(texted(TokenType::Float, "1_000.2_5", 0..9, 0..0)));
    assert_eq!(sc.peek(), Some('.'));
    assert_eq!(sc.consume_number(), None);
    assert_eq!(sc.pos(), (0, 9));
}

#[test]
fn number_edges() {
    assert_eq!(all("7"), vec![texted(TokenType::Int, "7", 0..1, 0..0)]);
    assert_eq!(all("12_"), vec![texted(TokenType::Int, "12_", 0..3, 0..0)]);
    assert_eq!(
        all("1._5"),
        vec![
            texted(TokenType::Int, "1", 0..1, 0..0),
            plain(TokenType::Dot, 1..2, 0..0),
            texted(TokenType::Identifier, "_5", 2..4, 0..0),
        ]
    );
    assert_eq!(
        all("1.2.3"),
        vec![
            texted(TokenType::Float, "1.2", 0..3, 0..0),
            plain(TokenType::Dot, 3..4, 0..0),
            texted(TokenType::Int, "3", 4..5, 0..0),
        ]
    );
    assert_eq!(
        all("1..2"),
        vec![
            texted(TokenType::Int, "1", 0..1, 0..0),
            plain(TokenType::DoubleDot, 1..3, 0..0),
            texted(TokenType::Int, "2", 3..4, 0..0),
        ]
    );
    assert_eq!(
        all("3x"),
        vec![
            texted(TokenType::Int, "3", 0..1, 0..0),
            texted(TokenType::Identifier, "x", 1..2, 0..0),
        ]
    );
}

#[test]
fn string_literals_keep_their_raw_text() {
    assert_eq!(all("'abc'"), vec![texted(TokenType::String, "'abc'", 0..5, 0..0)]);
    assert_eq!(all("\"a'b\""), vec![texted(TokenType::String, "\"a'b\"", 0..5, 0..0)]);
    assert_eq!(all("''"), vec![texted(TokenType::String, "''", 0..2, 0..0)]);
    assert_eq!(
        all(r"'a\'b' x"),
        vec![
            texted(TokenType::String, r"'a\'b'", 0..6, 0..0),
            texted(TokenType::Identifier, "x", 7..8, 0..0),
        ]
    );
    assert_eq!(all(r"'a\\'"), vec![texted(TokenType::String, r"'a\\'", 0..5, 0..0)]);
}

#[test]
fn string_literal_may_span_lines() {
    assert_eq!(
        all("'a\nb' c"),
        vec![
            texted(TokenType::String, "'a\nb'", 0..5, 0..1),
            texted(TokenType::Identifier, "c", 6..7, 1..1),
        ]
    );
}

#[test]
fn unterminated_string_is_one_invalid_token() {
    assert_eq!(all("'abc"), vec![plain(TokenType::InvalidToken, 0..4, 0..0)]);
    assert_eq!(all("\"abc'"), vec![plain(TokenType::InvalidToken, 0..5, 0..0)]);
    assert_eq!(all("'"), vec![plain(TokenType::InvalidToken, 0..1, 0..0)]);
    assert_eq!(all(r"'ab\"), vec![plain(TokenType::InvalidToken, 0..4, 0..0)]);
    assert_eq!(all(r"'ab\'"), vec![plain(TokenType::InvalidToken, 0..5, 0..0)]);
}

#[test]
fn string_scan_refuses_other_leads() {
    let mut sc = Scanner::new("a'b'");
    assert_eq!(sc.consume_string(), None);
    assert_eq!(sc.pos(), (0, 0));
}

#[test]
fn and_and_then_pipe() {
    assert_eq!(
        all("&&|"),
        vec![plain(TokenType::AndAnd, 0..2, 0..0), plain(TokenType::Pipe, 2..3, 0..0)]
    );
}

#[test]
fn longest_operator_spelling_wins() {
    assert_eq!(kinds("=="), vec![TokenType::EqEq]);
    assert_eq!(kinds("==="), vec![TokenType::EqEq, TokenType::Eq]);
    assert_eq!(kinds("===="), vec![TokenType::EqEq, TokenType::EqEq]);
    assert_eq!(kinds("!="), vec![TokenType::NotEq]);
    assert_eq!(kinds("<="), vec![TokenType::LtEq]);
    assert_eq!(kinds(">="), vec![TokenType::GtEq]);
    assert_eq!(kinds("&&"), vec![TokenType::AndAnd]);
    assert_eq!(kinds("||"), vec![TokenType::Or]);
    assert_eq!(kinds("+="), vec![TokenType::PlusEq]);
    assert_eq!(kinds("-="), vec![TokenType::MinusEq]);
    assert_eq!(kinds("->"), vec![TokenType::Arrow]);
    assert_eq!(kinds("*="), vec![TokenType::StarEq]);
    assert_eq!(kinds("/="), vec![TokenType::SlashEq]);
    assert_eq!(kinds("%="), vec![TokenType::PercentEq]);
    assert_eq!(kinds("::"), vec![TokenType::DoubleColon]);
    assert_eq!(kinds(".."), vec![TokenType::DoubleDot]);
    assert_eq!(kinds(":::"), vec![TokenType::DoubleColon, TokenType::Colon]);
    assert_eq!(kinds("..."), vec![TokenType::DoubleDot, TokenType::Dot]);
    assert_eq!(kinds("-->"), vec![TokenType::Minus, TokenType::Arrow]);
    assert_eq!(kinds("<=="), vec![TokenType::LtEq, TokenType::Eq]);
}

#[test]
fn single_character_operators_and_delimiters() {
    assert_eq!(
        kinds("+ - * / % = ! < > & | @ , ; : . ( ) { } [ ]"),
        vec![
            TokenType::Plus,
            TokenType::Minus,
            TokenType::Star,
            TokenType::Slash,
            TokenType::Percent,
            TokenType::Eq,
            TokenType::Bang,
            TokenType::Lt,
            TokenType::Gt,
            TokenType::And,
            TokenType::Pipe,
            TokenType::At,
            TokenType::Comma,
            TokenType::Semicolon,
            TokenType::Colon,
            TokenType::Dot,
            TokenType::OpenParen,
            TokenType::CloseParen,
            TokenType::OpenBrace,
            TokenType::CloseBrace,
            TokenType::OpenBracket,
            TokenType::CloseBracket,
        ]
    );
    assert_eq!(kinds("=!"), vec![TokenType::Eq, TokenType::Bang]);
    assert_eq!(kinds("=>"), vec![TokenType::Eq, TokenType::Gt]);
}

#[test]
fn unknown_character_is_one_invalid_token_and_scanning_goes_on() {
    assert_eq!(
        all("a # \u{e9}b"),
        vec![
            texted(TokenType::Identifier, "a", 0..1, 0..0),
            plain(TokenType::InvalidToken, 2..3, 0..0),
            plain(TokenType::InvalidToken, 4..6, 0..0),
            texted(TokenType::Identifier, "b", 6..7, 0..0),
        ]
    );
}

#[test]
fn whitespace_is_skipped_and_lines_are_counted() {
    assert_eq!(
        all("  let\n\tx \u{a0}=\r\n 1 \n"),
        vec![
            plain(TokenType::Let, 2..5, 0..0),
            texted(TokenType::Identifier, "x", 7..8, 1..1),
            plain(TokenType::Eq, 11..12, 1..1),
            texted(TokenType::Int, "1", 15..16, 2..2),
        ]
    );
}

#[test]
fn only_whitespace_yields_nothing() {
    assert_eq!(all(" \n\t "), vec![]);
    assert_eq!(all(""), vec![]);
}

#[test]
fn exhausted_stream_stays_exhausted() {
    let mut sc = Scanner::new("a ");
    assert!(sc.next().is_some());
    for _ in 0..5 {
        assert_eq!(sc.next(), None);
        assert_eq!(sc.pos(), (0, 2));
    }
}

#[test]
fn scan_token_reads_without_skipping() {
    let mut sc = Scanner::new(" a");
    assert_eq!(sc.scan_token(), Some(plain(TokenType::InvalidToken, 0..1, 0..0)));
    assert_eq!(sc.scan_token(), Some(texted(TokenType::Identifier, "a", 1..2, 0..0)));
    assert_eq!(sc.scan_token(), None);
}

fn check_tiling(input: &str) {
    let toks = all(input);
    let bytes = input.as_bytes();
    let mut at = 0;
    let mut line = 0;
    for t in &toks {
        let span = t.get_byte_pos();
        let lines = t.get_line_pos();
        assert!(at <= span.start && span.start < span.end && span.end <= bytes.len());
        assert!(line <= lines.start && lines.start <= lines.end);
        assert!(input[at..span.start].chars().all(char::is_whitespace));
        assert_eq!(lines.start, input[..span.start].matches('\n').count());
        assert_eq!(lines.end, input[..span.end].matches('\n').count());
        if let Some(text) = t.value.as_text() {
            assert_eq!(text, &input[span.start..span.end]);
        }
        at = span.end;
        line = lines.end;
    }
    assert!(input[at..].chars().all(char::is_whitespace));
    let covered: usize = toks.iter().map(|t| t.get_byte_pos().len()).sum();
    let blank = |s: &str| -> usize {
        s.chars().filter(|c| c.is_whitespace()).map(char::len_utf8).sum()
    };
    let skipped: usize = blank(input)
        - toks.iter().map(|t| blank(&input[t.get_byte_pos()])).sum::<usize>();
    assert_eq!(covered + skipped, bytes.len());
}

#[test]
fn tokens_and_whitespace_tile_the_text() {
    for input in [
        "",
        "===let abc",
        "fn main() { let x = 12.5; }\n",
        "a\n'b\nc' d -> e::f\n\n",
        "\u{3000}x\u{2028}y #\u{1f600}'open",
        "1..2 3.4.5 6._ _ __ a_b",
        "if a<=b&&c!=d||!e{return-1}",
    ] {
        check_tiling(input);
    }
}
