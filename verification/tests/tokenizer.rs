use xts_syntax::pos::WithPos;
use xts_syntax::token::{Token, TokenType, Tokenizer};
use xts_syntax::tokenizer::operator_for;

fn tok<'a>(
    kind: TokenType,
    text: &'a str,
    bytes: std::ops::Range<usize>,
    lines: std::ops::Range<usize>,
) -> WithPos<Token<'a>> {
    WithPos::new(Token::new(kind, text)).set_byte_pos(bytes).set_line_pos(lines)
}

fn all(input: &str) -> Vec<WithPos<Token<'_>>> {
    let mut t = Tokenizer::new(input);
    let mut out = Vec::new();
    while let Some(tok) = t.next() {
        out.push(tok);
    }
    assert_eq!(t.next(), None);
    out
}

#[test]
fn borrowed_token_keeps_kind_and_text() {
    let t = Token::new(TokenType::Identifier, "abc");
    assert_eq!(t.token_type(), TokenType::Identifier);
    assert_eq!(t.value(), "abc");
    assert_ne!(t, Token::new(TokenType::Identifier, "abd"));
    assert_ne!(t, Token::new(TokenType::String, "abc"));
}

#[test]
fn tokenizer_reads_the_sample() {
    assert_eq!(
        all("===let abc"),
        vec![
            tok(TokenType::EqEq, "", 0..2, 0..0),
            tok(TokenType::Eq, "", 2..3, 0..0),
            tok(TokenType::Let, "", 3..6, 0..0),
            tok(TokenType::Identifier, "abc", 7..10, 0..0),
        ]
    );
}

#[test]
fn tokenizer_numbers() {
    assert_eq!(all("12.5"), vec![tok(TokenType::Float, "12.5", 0..4, 0..0)]);
    assert_eq!(
        all("12."),
        vec![tok(TokenType::Int, "12", 0..2, 0..0), tok(TokenType::Dot, "", 2..3, 0..0)]
    );
    assert_eq!(all("1_0 "), vec![tok(TokenType::Int, "1_0", 0..3, 0..0)]);
    assert_eq!(
        all("1.2.3"),
        vec![
            tok(TokenType::Float, "1.2", 0..3, 0..0),
            tok(TokenType::Dot, "", 3..4, 0..0),
            tok(TokenType::Int, "3", 4..5, 0..0),
        ]
    );
    assert_eq!(
        all("9.x"),
        vec![
            tok(TokenType::Int, "9", 0..1, 0..0),
            tok(TokenType::Dot, "", 1..2, 0..0),
            tok(TokenType::Identifier, "x", 2..3, 0..0),
        ]
    );
}

#[test]
fn tokenizer_words() {
    assert_eq!(
        all("_ _x fn fnx While while"),
        vec![
            tok(TokenType::Underscore, "", 0..1, 0..0),
            tok(TokenType::Identifier, "_x", 2..4, 0..0),
            tok(TokenType::Fn, "", 5..7, 0..0),
            tok(TokenType::Identifier, "fnx", 8..11, 0..0),
            tok(TokenType::Identifier, "While", 12..17, 0..0),
            tok(TokenType::While, "", 18..23, 0..0),
        ]
    );
}

#[test]
fn tokenizer_operators() {
    assert_eq!(
        all("&&|"),
        vec![tok(TokenType::AndAnd, "", 0..2, 0..0), tok(TokenType::Pipe, "", 2..3, 0..0)]
    );
    assert_eq!(
        all("->-=-"),
        vec![
            tok(TokenType::Arrow, "", 0..2, 0..0),
            tok(TokenType::MinusEq, "", 2..4, 0..0),
            tok(TokenType::Minus, "", 4..5, 0..0),
        ]
    );
    assert_eq!(
        all("(){}[],"),
        vec![
            tok(TokenType::OpenParen, "", 0..1, 0..0),
            tok(TokenType::CloseParen, "", 1..2, 0..0),
            tok(TokenType::OpenBrace, "", 2..3, 0..0),
            tok(TokenType::CloseBrace, "", 3..4, 0..0),
            tok(TokenType::OpenBracket, "", 4..5, 0..0),
            tok(TokenType::CloseBracket, "", 5..6, 0..0),
            tok(TokenType::Comma, "", 6..7, 0..0),
        ]
    );
}

#[test]
fn tokenizer_strings() {
    assert_eq!(all("'abc"), vec![tok(TokenType::InvalidToken, "", 0..4, 0..0)]);
    assert_eq!(
        all(r#""a\"b" 'c'"#),
        vec![
            tok(TokenType::String, r#""a\"b""#, 0..6, 0..0),
            tok(TokenType::String, "'c'", 7..10, 0..0),
        ]
    );
    assert_eq!(all("'a\nb'"), vec![tok(TokenType::String, "'a\nb'", 0..5, 0..1)]);
    assert_eq!(all(r"'a\"), vec![tok(TokenType::InvalidToken, "", 0..3, 0..0)]);
}

#[test]
fn tokenizer_counts_lines_from_zero_and_bytes_by_width() {
    assert_eq!(
        all("a\n \u{e9} b\n\nc"),
        vec![
            tok(TokenType::Identifier, "a", 0..1, 0..0),
            tok(TokenType::InvalidToken, "", 3..5, 1..1),
            tok(TokenType::Identifier, "b", 6..7, 1..1),
            tok(TokenType::Identifier, "c", 9..10, 3..3),
        ]
    );
}

#[test]
fn tokenizer_gives_text_to_identifiers_and_literals_only() {
    for t in all("let x = 1 + 2.5 - 'a' ; _ # 'open") {
        let text = t.value.value();
        if t.value.token_type().has_text() {
            assert!(!text.is_empty());
        } else {
            assert_eq!(text, "");
        }
    }
    let mut t = Tokenizer::new("let");
    let word = t.scan_token().unwrap();
    assert_eq!(word.value.token_type(), TokenType::Let);
    assert_eq!(word.value.value(), "");
    assert_eq!(word.get_byte_pos(), 0..3);
    assert_eq!(t.scan_token(), None);
}

#[test]
fn tokenizer_exhaustion_is_stable() {
    let mut t = Tokenizer::new("  ");
    for _ in 0..4 {
        assert_eq!(t.next(), None);
    }
    let mut u = Tokenizer::new("");
    assert_eq!(u.next(), None);
    assert_eq!(u.next(), None);
}

#[test]
fn tokenizer_and_scanner_agree() {
    for input in [
        "fn main() { let x = 12.5; }\n",
        "a\n'b\nc' d -> e::f\n\n",
        "\u{3000}x\u{2028}y #\u{1f600}'open",
        "1..2 3.4.5 6._ _ __ a_b",
        "if a<=b&&c!=d||!e{return-1}",
        "@;:%=*=/=+=",
    ] {
        let mut sc = xts_syntax::Scanner::new(input);
        let mut t = Tokenizer::new(input);
        loop {
            match (sc.next(), t.next()) {
                (None, None) => break,
                (Some(a), Some(b)) => {
                    assert_eq!(a.value.token_type(), b.value.token_type());
                    assert_eq!(a.get_byte_pos(), b.get_byte_pos());
                    assert_eq!(a.get_line_pos(), b.get_line_pos());
                    match a.value.as_text() {
                        Some(text) => {
                            assert_eq!(text, b.value.value());
                            assert_eq!(text, &input[b.get_byte_pos()]);
                        },
                        None => assert_eq!(b.value.value(), ""),
                    }
                },
                (a, b) => panic!("{:?} against {:?}", a, b),
            }
        }
    }
}

#[test]
fn operator_table() {
    assert_eq!(operator_for('=', Some('=')), Some((TokenType::EqEq, true)));
    assert_eq!(operator_for('=', Some('>')), Some((TokenType::Eq, false)));
    assert_eq!(operator_for('=', None), Some((TokenType::Eq, false)));
    assert_eq!(operator_for('-', Some('>')), Some((TokenType::Arrow, true)));
    assert_eq!(operator_for('-', Some('=')), Some((TokenType::MinusEq, true)));
    assert_eq!(operator_for('-', Some('-')), Some((TokenType::Minus, false)));
    assert_eq!(operator_for('@', Some('=')), Some((TokenType::At, false)));
    assert_eq!(operator_for(')', None), Some((TokenType::CloseParen, false)));
    assert_eq!(operator_for('#', Some('=')), None);
    assert_eq!(operator_for('a', None), None);
}
