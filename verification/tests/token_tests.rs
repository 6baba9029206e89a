use calclib::error::LexError;
use calclib::token::{lookup_token, Token};

#[test]
fn test_lookup_token_operators() {
    assert_eq!(lookup_token('='), Ok(Some(Token::Equal)));
    assert_eq!(lookup_token('('), Ok(Some(Token::LParen)));
    assert_eq!(lookup_token(')'), Ok(Some(Token::RParen)));
    assert_eq!(lookup_token('+'), Ok(Some(Token::Plus)));
    assert_eq!(lookup_token('-'), Ok(Some(Token::Minus)));
    assert_eq!(lookup_token('*'), Ok(Some(Token::Multiply)));
    assert_eq!(lookup_token('/'), Ok(Some(Token::Divide)));
    assert_eq!(lookup_token('\u{d7}'), Ok(Some(Token::Multiply)));
    assert_eq!(lookup_token('\u{f7}'), Ok(Some(Token::Divide)));
    assert_eq!(lookup_token('^'), Ok(Some(Token::Caret)));
    assert_eq!(lookup_token('%'), Ok(Some(Token::Percent)));
    assert_eq!(lookup_token('.'), Ok(Some(Token::Period)));
    assert_eq!(lookup_token('!'), Ok(Some(Token::Exclamation)));
}

#[test]
fn test_lookup_token_digits_and_unknown() {
    assert_eq!(lookup_token('0'), Ok(Some(Token::Number(0))));
    assert_eq!(lookup_token('7'), Ok(Some(Token::Number(7))));
    assert_eq!(lookup_token('9'), Ok(Some(Token::Number(9))));
    assert_eq!(lookup_token('a'), Err(LexError::UnknownCharacter('a')));
    assert_eq!(lookup_token(' '), Err(LexError::UnknownCharacter(' ')));
}

#[test]
fn test_precedence_table_order() {
    let eof = Token::Eof.precedence();
    let sum = Token::Plus.precedence();
    let product = Token::Multiply.precedence();
    let caret = Token::Caret.precedence();
    let lparen = Token::LParen.precedence();
    assert!(eof < sum);
    assert!(sum < product);
    assert!(product < caret);
    assert!(caret < lparen);
    assert_eq!(Token::Minus.precedence(), sum);
    assert_eq!(Token::Divide.precedence(), product);
    assert_eq!(Token::Percent.precedence(), product);
    assert_eq!(Token::Exclamation.precedence(), product);
    assert_eq!(Token::RParen.precedence(), 0);
    assert_eq!(Token::Number(1).precedence(), 0);
}
