use vstd::prelude::*;

use crate::ast::Expression;
use crate::error::{CalcError, EvalError};
use crate::parser::{spec_parse, Parser};
use crate::token::Token;

verus! {

/// The front half of an evaluation call: parses the input and applies the
/// propagation policy. A lexing failure is a hard error and reaches the
/// caller as such; an empty or incomplete input is no expression at all
/// and surfaces as the distinct "nothing to evaluate" failure, so that an
/// interactive caller can tell "keep typing" from a mistake; otherwise
/// the tree to walk is handed back.
pub fn expression_to_evaluate(input: String) -> (r: Result<Expression, CalcError>)
    ensures
        match spec_parse(input@) {
            Err(e) => r == Err::<Expression, CalcError>(CalcError::Lex(e)),
            Ok(None) => r == Err::<Expression, CalcError>(
                CalcError::Eval(EvalError::NothingToEvaluate),
            ),
            Ok(Some(ex)) => r == Ok::<Expression, CalcError>(ex),
        },
{
    let mut parser = Parser::new();
    match parser.parse(input) {
        Err(e) => Err(CalcError::Lex(e)),
        Ok(None) => Err(CalcError::Eval(EvalError::NothingToEvaluate)),
        Ok(Some(ex)) => Ok(ex),
    }
}

/// The arithmetic steps an expression tree can ask for. Which step a node
/// performs is decided here, by the rules below; carrying the step out on
/// machine numbers is the numeric layer's business.
#[derive(Debug, Clone, Copy, PartialEq, Eq, Structural)]
pub enum Operation {
    Add,
    Subtract,
    Multiply,
    Divide,
    Negate,
    Factorial,
}

/// Decides what an infix node does. `+ - * /` map to their operations;
/// a division whose right operand is exactly zero is a hard error rather
/// than an infinity; every other token in infix position (`^`, `%`, `!`,
/// a literal, a parenthesis) has no defined meaning there.
pub fn infix_operation(operator: &Token, right_is_zero: bool) -> (r: Result<Operation, EvalError>)
    ensures
        *operator == Token::Plus ==> r == Ok::<Operation, EvalError>(Operation::Add),
        *operator == Token::Minus ==> r == Ok::<Operation, EvalError>(Operation::Subtract),
        *operator == Token::Multiply ==> r == Ok::<Operation, EvalError>(Operation::Multiply),
        *operator == Token::Divide && !right_is_zero ==> r == Ok::<Operation, EvalError>(
            Operation::Divide,
        ),
        *operator == Token::Divide && right_is_zero ==> r == Err::<Operation, EvalError>(
            EvalError::DivisionByZero,
        ),
        !(*operator == Token::Plus || *operator == Token::Minus || *operator == Token::Multiply
            || *operator == Token::Divide) ==> r == Err::<Operation, EvalError>(
            EvalError::UnsupportedOperator,
        ),
{
    match operator {
        Token::Plus => Ok(Operation::Add),
        Token::Minus => Ok(Operation::Subtract),
        Token::Multiply => Ok(Operation::Multiply),
        Token::Divide => {
            if right_is_zero {
                Err(EvalError::DivisionByZero)
            } else {
                Ok(Operation::Divide)
            }
        },
        _ => Err(EvalError::UnsupportedOperator),
    }
}

/// Decides what a prefix node does: only `-`, numeric negation, is
/// evaluable before its operand.
pub fn prefix_operation(operator: &Token) -> (r: Result<Operation, EvalError>)
    ensures
        *operator == Token::Minus ==> r == Ok::<Operation, EvalError>(Operation::Negate),
        *operator != Token::Minus ==> r == Err::<Operation, EvalError>(
            EvalError::UnsupportedOperator,
        ),
{
    match operator {
        Token::Minus => Ok(Operation::Negate),
        _ => Err(EvalError::UnsupportedOperator),
    }
}

/// Decides what a postfix node does: only `!`, the factorial, is
/// evaluable after its operand.
pub fn postfix_operation(operator: &Token) -> (r: Result<Operation, EvalError>)
    ensures
        *operator == Token::Exclamation ==> r == Ok::<Operation, EvalError>(Operation::Factorial),
        *operator != Token::Exclamation ==> r == Err::<Operation, EvalError>(
            EvalError::UnsupportedOperator,
        ),
{
    match operator {
        Token::Exclamation => Ok(Operation::Factorial),
        _ => Err(EvalError::UnsupportedOperator),
    }
}

/// How a factorial is carried out once the operand's sign and integrality
/// are known: the factorial of the operand's magnitude, through the gamma
/// function when the magnitude is not a whole number, with the operand's
/// sign restored on the result.
#[derive(Debug, Clone, Copy, PartialEq, Eq, Structural)]
pub struct FactorialPlan {
    /// Flip the sign of the computed factorial back to the operand's.
    pub negate_result: bool,
    /// The magnitude is not a whole number: compute `gamma(magnitude + 1)`
    /// instead of the integer factorial.
    pub use_gamma: bool,
}

/// Decides how a factorial node is evaluated. A factorial with no operand
/// value to work on is a defensive failure; the parser never produces one.
pub fn factorial_plan(has_value: bool, is_negative: bool, is_integral: bool) -> (r: Result<
    FactorialPlan,
    EvalError,
>)
    ensures
        !has_value ==> r == Err::<FactorialPlan, EvalError>(EvalError::FactorialComputationFailed),
        has_value ==> r == Ok::<FactorialPlan, EvalError>(
            FactorialPlan { negate_result: is_negative, use_gamma: !is_integral },
        ),
{
    if !has_value {
        Err(EvalError::FactorialComputationFailed)
    } else {
        Ok(FactorialPlan { negate_result: is_negative, use_gamma: !is_integral })
    }
}

} // verus!
