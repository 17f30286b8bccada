use xts_syntax::chars::{digit, ident_part, ident_start, number_part, quote, CharClass};
use xts_syntax::pos::WithPos;
use xts_syntax::token::{classify_word, TokenType};
use xts_syntax::Token;

#[test]
fn character_classes() {
    for c in ['a', 'z', 'A', 'Z', '_', 'm'] {
        assert!(ident_start(c) && ident_part(c) && !digit(c));
    }
    for c in ['0', '9', '5'] {
        assert!(!ident_start(c) && ident_part(c) && digit(c) && number_part(c));
    }
    for c in ['`', '{', '@', '[', '/', ':', ' ', '\u{e9}', '\u{661}'] {
        assert!(!ident_start(c) && !ident_part(c) && !digit(c) && !number_part(c));
    }
    assert!(number_part('_') && !digit('_'));
    assert!(quote('\'') && quote('"') && !quote('`'));
}

#[test]
fn class_membership() {
    assert!(CharClass::Any.has('\u{0}'));
    assert!(CharClass::Whitespace.has(' '));
    assert!(CharClass::Whitespace.has('\n'));
    assert!(CharClass::Whitespace.has('\u{a0}'));
    assert!(!CharClass::Whitespace.has('a'));
    assert!(!CharClass::Whitespace.has('\u{200b}'));
    assert!(CharClass::IdentStart.has('_') && !CharClass::IdentStart.has('1'));
    assert!(CharClass::IdentPart.has('1') && !CharClass::IdentPart.has('-'));
    assert!(CharClass::Digit.has('7') && !CharClass::Digit.has('_'));
    assert!(CharClass::NumberPart.has('_') && !CharClass::NumberPart.has('.'));
}

#[test]
fn ascii_whitespace_is_tab_to_carriage_return_and_space() {
    for code in 0u8..=0x7f {
        let c = code as char;
        let expected = (0x09..=0x0d).contains(&code) || code == 0x20;
        assert_eq!(CharClass::Whitespace.has(c), expected);
        assert_eq!(c.is_whitespace(), expected);
    }
}

#[test]
fn word_lookup() {
    assert_eq!(classify_word("let"), TokenType::Let);
    assert_eq!(classify_word("trait"), TokenType::Trait);
    assert_eq!(classify_word("continue"), TokenType::Continue);
    assert_eq!(classify_word("_"), TokenType::Underscore);
    assert_eq!(classify_word("letx"), TokenType::Identifier);
    assert_eq!(classify_word("le"), TokenType::Identifier);
    assert_eq!(classify_word("Let"), TokenType::Identifier);
    assert_eq!(classify_word(""), TokenType::Identifier);
    assert_eq!(classify_word("=="), TokenType::Identifier);
    assert_eq!(classify_word("l\u{e9}t"), TokenType::Identifier);
}

#[test]
fn kinds_that_carry_text() {
    assert!(TokenType::Identifier.has_text());
    assert!(TokenType::Int.has_text());
    assert!(TokenType::Float.has_text());
    assert!(TokenType::String.has_text());
    assert!(TokenType::Boolean.has_text());
    assert!(!TokenType::Let.has_text());
    assert!(!TokenType::EqEq.has_text());
    assert!(!TokenType::Underscore.has_text());
    assert!(!TokenType::InvalidToken.has_text());
    assert!(!TokenType::Eof.has_text());
}

#[test]
fn token_builder() {
    let bare = Token::new(TokenType::Comma);
    assert_eq!(bare.token_type(), TokenType::Comma);
    assert_eq!(bare.as_text(), None);
    let named = Token::new(TokenType::Identifier).value("x1".to_owned());
    assert_eq!(named.token_type(), TokenType::Identifier);
    assert_eq!(named.as_text(), Some("x1"));
    assert_ne!(named, Token::new(TokenType::Identifier));
    let renamed = named.value("y".to_owned());
    assert_eq!(renamed.as_text(), Some("y"));
}

#[test]
fn span_builder() {
    let w = WithPos::new(7u8);
    assert_eq!(w.value, 7);
    assert_eq!(w.get_byte_pos(), 0..0);
    assert_eq!(w.get_line_pos(), 0..0);
    let w = w.set_byte_pos(3..9);
    assert_eq!(w.get_byte_pos(), 3..9);
    assert_eq!(w.get_line_pos(), 0..0);
    let w = w.set_line_pos(1..2);
    assert_eq!(w.get_byte_pos(), 3..9);
    assert_eq!(w.get_line_pos(), 1..2);
    assert_eq!(w.value, 7);
    assert_eq!(w, WithPos::new(7u8).set_line_pos(1..2).set_byte_pos(3..9));
    assert_ne!(w, WithPos::new(7u8).set_line_pos(1..2).set_byte_pos(3..8));
}
