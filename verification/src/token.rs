use vstd::prelude::*;

use crate::error::LexError;

verus! {

// Binding powers, strictly ordered so that the parser's climbing loop
// resolves associativity correctly:
// LOWEST (non-operators) < END (end of input) < SUM (+ -)
// < PRODUCT (* / % !) < PREFIX (unary minus) < EXPONENT (^)
// < GROUP (an opening parenthesis, which triggers implicit multiplication).
pub const LOWEST: u8 = 0;

pub const END: u8 = 1;

pub const SUM: u8 = 2;

pub const PRODUCT: u8 = 3;

pub const PREFIX: u8 = 4;

pub const EXPONENT: u8 = 5;

pub const GROUP: u8 = 6;

/// The closed set of lexical symbols. `Eof` is a sentinel meaning "no more
/// input", distinct from a lexing error. A numeric literal without a
/// decimal point becomes `Number`; one with a single decimal point becomes
/// `Decimal`, which carries the literal exactly as the value
/// `mantissa / 10^scale`.
#[derive(Debug, Clone, Copy, PartialEq, Eq, Structural)]
pub enum Token {
    Number(u32),
    Decimal { mantissa: u64, scale: usize },
    Plus,
    Minus,
    Multiply,
    Divide,
    LParen,
    RParen,
    Percent,
    Period,
    Caret,
    Equal,
    Exclamation,
    Eof,
    Nop,
}

/// Whether `c` is an ASCII decimal digit.
pub open spec fn is_digit_char(c: char) -> bool {
    '0' <= c && c <= '9'
}

/// The numeric value of an ASCII decimal digit.
pub open spec fn digit_value(c: char) -> u32 {
    ((c as u32) - 48) as u32
}

/// What `lookup_token` returns for each character.
pub open spec fn spec_lookup_token(ch: char) -> Result<Option<Token>, LexError> {
    if ch == '=' {
        Ok(Some(Token::Equal))
    } else if ch == '(' {
        Ok(Some(Token::LParen))
    } else if ch == ')' {
        Ok(Some(Token::RParen))
    } else if ch == '+' {
        Ok(Some(Token::Plus))
    } else if ch == '-' {
        Ok(Some(Token::Minus))
    } else if ch == '*' || ch == '\u{d7}' {
        Ok(Some(Token::Multiply))
    } else if ch == '/' || ch == '\u{f7}' {
        Ok(Some(Token::Divide))
    } else if ch == '^' {
        Ok(Some(Token::Caret))
    } else if ch == '%' {
        Ok(Some(Token::Percent))
    } else if ch == '.' {
        Ok(Some(Token::Period))
    } else if ch == '!' {
        Ok(Some(Token::Exclamation))
    } else if is_digit_char(ch) {
        Ok(Some(Token::Number(digit_value(ch))))
    } else {
        Err(LexError::UnknownCharacter(ch))
    }
}

/// Maps one character to the token it stands for on its own; a digit maps
/// to a one-digit `Number`. This is the character table the input surface
/// exposes; the lexer proper additionally folds digit runs into a single
/// number token and treats `=` and a newline as end of input.
pub fn lookup_token(ch: char) -> (r: Result<Option<Token>, LexError>)
    ensures
        r == spec_lookup_token(ch),
{
    match ch {
        '=' => Ok(Some(Token::Equal)),
        '(' => Ok(Some(Token::LParen)),
        ')' => Ok(Some(Token::RParen)),
        '+' => Ok(Some(Token::Plus)),
        '-' => Ok(Some(Token::Minus)),
        '*' => Ok(Some(Token::Multiply)),
        '/' => Ok(Some(Token::Divide)),
        '\u{d7}' => Ok(Some(Token::Multiply)),
        '\u{f7}' => Ok(Some(Token::Divide)),
        '^' => Ok(Some(Token::Caret)),
        '%' => Ok(Some(Token::Percent)),
        '.' => Ok(Some(Token::Period)),
        '!' => Ok(Some(Token::Exclamation)),
        _ => {
            if '0' <= ch && ch <= '9' {
                Ok(Some(Token::Number((ch as u32) - 48)))
            } else {
                Err(LexError::UnknownCharacter(ch))
            }
        },
    }
}

/// The binding power of each token, as the table above orders them.
/// `RParen`, `Period`, `Equal`, `Nop` and the literals bind lowest: none
/// of them continues an expression.
pub open spec fn spec_precedence(t: Token) -> u8 {
    match t {
        Token::Eof => END,
        Token::Plus => SUM,
        Token::Minus => SUM,
        Token::Multiply => PRODUCT,
        Token::Divide => PRODUCT,
        Token::Percent => PRODUCT,
        Token::Exclamation => PRODUCT,
        Token::Caret => EXPONENT,
        Token::LParen => GROUP,
        _ => LOWEST,
    }
}

impl Token {
    /// The binding power the parser's climbing loop compares against.
    pub fn precedence(&self) -> (p: u8)
        ensures
            p == spec_precedence(*self),
    {
        match self {
            Token::Eof => END,
            Token::Plus => SUM,
            Token::Minus => SUM,
            Token::Multiply => PRODUCT,
            Token::Divide => PRODUCT,
            Token::Percent => PRODUCT,
            Token::Exclamation => PRODUCT,
            Token::Caret => EXPONENT,
            Token::LParen => GROUP,
            _ => LOWEST,
        }
    }
}

} // verus!
