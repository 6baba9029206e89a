use vstd::prelude::*;

verus! {

/// A failure raised while turning input text into tokens. Lexing failures
/// are hard errors: they abort the whole parse and reach the caller, unlike
/// merely incomplete input, which parses to "nothing".
#[derive(Debug, Clone, Copy, PartialEq, Eq)]
pub enum LexError {
    /// A character outside the digit and operator set was read.
    UnknownCharacter(char),
    /// A numeric literal could not be read as a number: it held more than
    /// one decimal point, or its digits exceed what the token can carry.
    FailedToParseNumber,
}

impl LexError {
    /// The user-facing description of the failure. A caller that wants to
    /// name the offending character can match `UnknownCharacter` itself.
    pub fn message(&self) -> (m: &'static str)
        ensures
            self matches LexError::UnknownCharacter(_) ==> m@ == "Unknown character"@,
            self matches LexError::FailedToParseNumber ==> m@ == "Failed to parse number"@,
    {
        match self {
            LexError::UnknownCharacter(_) => "Unknown character",
            LexError::FailedToParseNumber => "Failed to parse number",
        }
    }
}

/// A failure raised while evaluating a parsed expression, or the report
/// that there was nothing to evaluate at all.
#[derive(Debug, Clone, Copy, PartialEq, Eq)]
pub enum EvalError {
    /// The right operand of a division is exactly zero.
    DivisionByZero,
    /// An operator token reached evaluation in a position that has no
    /// defined meaning there (`^` or `%` as a binary operator, anything
    /// but `-` as a prefix, anything but `!` as a postfix).
    UnsupportedOperator,
    /// The factorial step had no operand value to work on. The parser
    /// never produces such a tree; this is a defensive arm.
    FactorialComputationFailed,
    /// The input was empty or incomplete, so there was no expression to
    /// evaluate. This is "keep typing", not a syntax error.
    NothingToEvaluate,
}

impl EvalError {
    /// The user-facing description of the failure.
    pub fn message(&self) -> (m: &'static str)
        ensures
            self matches EvalError::DivisionByZero ==> m@ == "Division by zero"@,
            self matches EvalError::UnsupportedOperator ==> m@ == "Unsupported operator"@,
            self matches EvalError::FactorialComputationFailed ==> m@
                == "Failed to compute factorial"@,
            self matches EvalError::NothingToEvaluate ==> m@ == "Invalid expression"@,
    {
        match self {
            EvalError::DivisionByZero => "Division by zero",
            EvalError::UnsupportedOperator => "Unsupported operator",
            EvalError::FactorialComputationFailed => "Failed to compute factorial",
            EvalError::NothingToEvaluate => "Invalid expression",
        }
    }
}

/// Everything an evaluation call can fail with: a lexing failure carried
/// through from the parse, or an evaluation failure of the tree walk.
#[derive(Debug, Clone, Copy, PartialEq, Eq)]
pub enum CalcError {
    Lex(LexError),
    Eval(EvalError),
}

impl CalcError {
    /// The user-facing description: that of the carried failure.
    pub fn message(&self) -> (m: &'static str)
        ensures
            forall|e: LexError| *self == CalcError::Lex(e) ==> ({
                &&& e matches LexError::UnknownCharacter(_) ==> m@ == "Unknown character"@
                &&& e matches LexError::FailedToParseNumber ==> m@ == "Failed to parse number"@
            }),
            forall|e: EvalError| *self == CalcError::Eval(e) ==> ({
                &&& e matches EvalError::DivisionByZero ==> m@ == "Division by zero"@
                &&& e matches EvalError::UnsupportedOperator ==> m@ == "Unsupported operator"@
                &&& e matches EvalError::FactorialComputationFailed ==> m@
                    == "Failed to compute factorial"@
                &&& e matches EvalError::NothingToEvaluate ==> m@ == "Invalid expression"@
            }),
    {
        match self {
            CalcError::Lex(e) => e.message(),
            CalcError::Eval(e) => e.message(),
        }
    }
}

} // verus!
