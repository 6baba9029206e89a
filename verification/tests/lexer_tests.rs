use calclib::error::LexError;
use calclib::lexer::Lexer;
use calclib::token::Token;

#[test]
fn test_lexer_literal() {
    let input = vec![("5", 5), ("42", 42), ("9999999", 9999999), ("100", 100), ("0", 0)];

    for i in input {
        let mut l = Lexer::new(i.0.to_string());
        let token = l.next_token().unwrap();
        let expected_value = i.1 as u32;
        assert_eq!(token, Token::Number(expected_value));
    }
}

#[test]
fn test_lexer_operators() {
    let input = "+-*/()%^=!.\n ";
    let mut l = Lexer::new(input.to_string());

    let expected_tokens = vec![
        Token::Plus,
        Token::Minus,
        Token::Multiply,
        Token::Divide,
        Token::LParen,
        Token::RParen,
        Token::Percent,
        Token::Caret,
        Token::Eof,
        Token::Exclamation,
        Token::Period,
        Token::Eof,
        Token::Nop,
    ];

    for expected in expected_tokens {
        let token = l.next_token().unwrap();
        assert_eq!(token, expected);
    }
}

#[test]
fn test_lexer_invalid_char() {
    let input = "@";
    let mut l = Lexer::new(input.to_string());
    let result = l.next_token();
    assert!(result.is_err());
}

#[test]
fn test_lexer_unicode_operator_aliases() {
    let mut l = Lexer::new("6\u{d7}7".to_string());
    assert_eq!(l.next_token().unwrap(), Token::Number(6));
    assert_eq!(l.next_token().unwrap(), Token::Multiply);
    assert_eq!(l.next_token().unwrap(), Token::Number(7));

    let mut l = Lexer::new("8\u{f7}2".to_string());
    assert_eq!(l.next_token().unwrap(), Token::Number(8));
    assert_eq!(l.next_token().unwrap(), Token::Divide);
    assert_eq!(l.next_token().unwrap(), Token::Number(2));
}

#[test]
fn test_lexer_eof_repeats_after_exhaustion() {
    let mut l = Lexer::new("42".to_string());
    assert_eq!(l.next_token().unwrap(), Token::Number(42));
    assert_eq!(l.next_token().unwrap(), Token::Eof);
    assert_eq!(l.next_token().unwrap(), Token::Eof);
    assert_eq!(l.next_token().unwrap(), Token::Eof);
}

#[test]
fn test_lexer_number_then_operator() {
    let mut l = Lexer::new("42+1".to_string());
    assert_eq!(l.next_token().unwrap(), Token::Number(42));
    assert_eq!(l.next_token().unwrap(), Token::Plus);
    assert_eq!(l.next_token().unwrap(), Token::Number(1));
    assert_eq!(l.next_token().unwrap(), Token::Eof);
}

#[test]
fn test_lexer_decimal_literal() {
    let mut l = Lexer::new("2.3".to_string());
    assert_eq!(l.next_token().unwrap(), Token::Decimal { mantissa: 23, scale: 1 });
    assert_eq!(l.next_token().unwrap(), Token::Eof);

    let mut l = Lexer::new("10.25".to_string());
    assert_eq!(l.next_token().unwrap(), Token::Decimal { mantissa: 1025, scale: 2 });

    let mut l = Lexer::new("7.".to_string());
    assert_eq!(l.next_token().unwrap(), Token::Decimal { mantissa: 7, scale: 0 });
}

#[test]
fn test_lexer_lone_period_is_a_period_token() {
    let mut l = Lexer::new(".5".to_string());
    assert_eq!(l.next_token().unwrap(), Token::Period);
    assert_eq!(l.next_token().unwrap(), Token::Number(5));
}

#[test]
fn test_lexer_number_overflow_fails() {
    let mut l = Lexer::new("4294967296".to_string());
    assert_eq!(l.next_token(), Err(LexError::FailedToParseNumber));

    let mut l = Lexer::new("4294967295".to_string());
    assert_eq!(l.next_token().unwrap(), Token::Number(4294967295));
}

#[test]
fn test_lexer_two_dots_fail() {
    let mut l = Lexer::new("1.2.3".to_string());
    assert_eq!(l.next_token(), Err(LexError::FailedToParseNumber));
}

#[test]
fn test_lexer_unknown_character_is_reported() {
    let mut l = Lexer::new("a".to_string());
    assert_eq!(l.next_token(), Err(LexError::UnknownCharacter('a')));
}
