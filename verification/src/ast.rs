use vstd::prelude::*;

use crate::token::Token;

verus! {

/// One node of the abstract syntax tree. The tree is finite and acyclic:
/// each node exclusively owns its children, and a fresh tree is produced
/// per parse call.
///
/// `Integer` holds a whole-number literal. `Decimal` holds a fractional
/// literal exactly as `mantissa / 10^scale`, the way the lexer read it;
/// turning it into a machine number is the evaluation layer's business.
/// `Infix` is binary application, `Prefix` unary application before the
/// operand (only `-` is evaluable there), and `Unary` postfix application
/// after the operand (only `!`, the factorial, is evaluable there).
#[derive(Debug, PartialEq, Eq)]
pub enum Expression {
    Integer { value: i64 },
    Decimal { mantissa: u64, scale: usize },
    Infix { left: Box<Expression>, operator: Token, right: Box<Expression> },
    Prefix { operator: Token, right: Box<Expression> },
    Unary { operator: Token, expression: Box<Expression> },
}

} // verus!
