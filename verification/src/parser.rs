use vstd::prelude::*;

use crate::ast::Expression;
use crate::error::LexError;
use crate::lexer::{spec_tokens, Lexer};
use crate::token::{spec_precedence, Token, LOWEST, PREFIX};

verus! {

/// The token at position `i`; past either end of the stream the parser
/// sees `Eof`.
pub open spec fn tok_at(toks: Seq<Token>, i: int) -> Token {
    if 0 <= i < toks.len() {
        toks[i]
    } else {
        Token::Eof
    }
}

/// Where the cursor stands after one advance: it stops at the stream's
/// end rather than running past it.
pub open spec fn adv(toks: Seq<Token>, i: int) -> int {
    if i < toks.len() {
        i + 1
    } else {
        i
    }
}

/// How many tokens are still unread: the termination measure of the
/// parsing functions.
pub open spec fn decr(toks: Seq<Token>, i: int) -> int {
    if i <= toks.len() {
        toks.len() - i
    } else {
        0
    }
}

/// Termination guard. The parse position never moves backward, but the
/// termination checker cannot see that through a recursive result, so the
/// position a sub-parse returns is clamped to at least one step forward.
/// Along every real path the clamp is a no-op.
pub open spec fn progress(i: int, j: int) -> int {
    if j <= i {
        i + 1
    } else {
        j
    }
}

// Each parsing function is mirrored by a spec function over the token
// stream. The three components of each result are the expression built so
// far (`None` when the input is not a well-formed expression), the cursor
// position afterward, and whether the parse ran into the `Eof` sentinel,
// which is what distinguishes a complete expression from a truncated one.

/// A prefix application: the operator, then its operand parsed at `PREFIX`
/// binding power, so that unary minus binds tighter than any binary
/// operator except exponentiation.
pub open spec fn spec_parse_prefix(toks: Seq<Token>, i: int) -> (Option<Expression>, int, bool)
    decreases decr(toks, i), 2int,
{
    let op = tok_at(toks, i);
    let j = adv(toks, i);
    if j <= i {
        (None, i, false)
    } else {
        let (r, j2, f2) = spec_parse_expression(toks, j, PREFIX);
        (
            match r {
                Some(e) => Some(Expression::Prefix { operator: op, right: Box::new(e) }),
                None => None,
            },
            j2,
            f2,
        )
    }
}

/// Folds the expression built so far with the operator under the cursor:
/// an opening parenthesis means implicit multiplication, a postfix `!`
/// wraps the left operand without consuming anything further, and any
/// other token is a left-associative binary operator whose right operand
/// is parsed at the operator's own binding power.
pub open spec fn spec_parse_infix(toks: Seq<Token>, left: Option<Expression>, i: int) -> (
    Option<Expression>,
    int,
    bool,
)
    decreases decr(toks, i), 2int,
{
    let op = tok_at(toks, i);
    if op == Token::LParen {
        let j = adv(toks, i);
        if j <= i {
            (None, i, false)
        } else {
            let (r, j2, f2) = spec_parse_expression(toks, j, LOWEST);
            let j3 = adv(toks, j2);
            if tok_at(toks, j3) == Token::RParen {
                (
                    match (left, r) {
                        (Some(l), Some(e)) => Some(
                            Expression::Infix {
                                left: Box::new(l),
                                operator: Token::Multiply,
                                right: Box::new(e),
                            },
                        ),
                        _ => None,
                    },
                    j3,
                    f2,
                )
            } else {
                (None, j3, f2)
            }
        }
    } else if op == Token::Exclamation {
        (
            match left {
                Some(l) => Some(
                    Expression::Unary { operator: Token::Exclamation, expression: Box::new(l) },
                ),
                None => None,
            },
            i,
            false,
        )
    } else {
        let j = adv(toks, i);
        if j <= i {
            (None, i, false)
        } else {
            let (r, j2, f2) = spec_parse_expression(toks, j, spec_precedence(op));
            (
                match (left, r) {
                    (Some(l), Some(e)) => Some(
                        Expression::Infix { left: Box::new(l), operator: op, right: Box::new(e) },
                    ),
                    _ => None,
                },
                j2,
                f2,
            )
        }
    }
}

/// The climbing loop: as long as the token after the cursor binds tighter
/// than `min_bp`, advance onto it and fold it into the left-hand side;
/// reaching `Eof` here records that the input came to a clean end.
pub open spec fn spec_parse_loop(
    toks: Seq<Token>,
    left: Option<Expression>,
    i: int,
    min_bp: u8,
) -> (Option<Expression>, int, bool)
    decreases decr(toks, i), 1int,
{
    if min_bp < spec_precedence(tok_at(toks, i + 1)) {
        let j = adv(toks, i);
        if tok_at(toks, j) == Token::Eof {
            (left, j, true)
        } else {
            let (l2, j2, f2) = spec_parse_infix(toks, left, j);
            let (l3, j3, f3) = spec_parse_loop(toks, l2, progress(i, j2), min_bp);
            (l3, j3, f2 || f3)
        }
    } else {
        (left, i, false)
    }
}

/// One expression starting at the cursor: a literal, a prefix minus, or a
/// parenthesized group, extended by the climbing loop while the following
/// operator binds tighter than `min_bp`.
pub open spec fn spec_parse_expression(toks: Seq<Token>, i: int, min_bp: u8) -> (
    Option<Expression>,
    int,
    bool,
)
    decreases decr(toks, i), 3int,
{
    match tok_at(toks, i) {
        Token::Eof => (None, i, false),
        Token::Minus => {
            let (l, j, f) = spec_parse_prefix(toks, i);
            let (l2, j2, f2) = spec_parse_loop(toks, l, progress(i, j), min_bp);
            (l2, j2, f || f2)
        },
        Token::LParen => {
            let j = adv(toks, i);
            if j <= i {
                (None, i, false)
            } else {
                let (inner, j2, f2) = spec_parse_expression(toks, j, LOWEST);
                let j3 = adv(toks, j2);
                if tok_at(toks, j3) == Token::RParen {
                    let (l2, j4, f4) = spec_parse_loop(toks, inner, progress(i, j3), min_bp);
                    (l2, j4, f2 || f4)
                } else {
                    (None, j3, f2)
                }
            }
        },
        Token::Number(value) => spec_parse_loop(
            toks,
            Some(Expression::Integer { value: value as i64 }),
            i,
            min_bp,
        ),
        Token::Decimal { mantissa, scale } => spec_parse_loop(
            toks,
            Some(Expression::Decimal { mantissa, scale }),
            i,
            min_bp,
        ),
        _ => (None, i, false),
    }
}

/// What a whole parse of the token stream yields: the expression, provided
/// the parse both produced one and reached a clean `Eof`; otherwise
/// nothing. Malformed or partial input is not an error, it is "nothing to
/// evaluate yet".
pub open spec fn spec_parse_result(toks: Seq<Token>) -> Option<Expression> {
    if tok_at(toks, 0) == Token::Eof {
        None
    } else {
        let (e, j, f) = spec_parse_expression(toks, 0, LOWEST);
        if f && e is Some {
            e
        } else {
            None
        }
    }
}

/// What parsing an input text yields: the lexer's first failure if it has
/// one, and otherwise the parse of the whole token stream. Parsing is a
/// pure function of the text: this is the contract every `Parser::parse`
/// call meets, whatever state the parser instance was in before.
pub open spec fn spec_parse(s: Seq<char>) -> Result<Option<Expression>, LexError> {
    match spec_tokens(s) {
        Err(e) => Err(e),
        Ok(toks) => Ok(spec_parse_result(toks)),
    }
}

/// The precedence-climbing parser. An instance is reusable: each `parse`
/// call re-initializes the token stream and the end-of-input flag, and the
/// result depends on nothing but the input text.
pub struct Parser {
    tokens: Vec<Token>,
    position: usize,
    found_eof: bool,
}

impl Parser {
    /// The token stream of the current `parse` call.
    pub closed spec fn toks(&self) -> Seq<Token> {
        self.tokens@
    }

    /// The cursor: the index of the current token.
    pub closed spec fn pos(&self) -> int {
        self.position as int
    }

    /// Whether this parse has run into the `Eof` sentinel.
    pub closed spec fn eof_seen(&self) -> bool {
        self.found_eof
    }

    /// The cursor never runs past the end of the token stream.
    pub closed spec fn wf(&self) -> bool {
        self.position <= self.tokens@.len()
    }

    pub fn new() -> (p: Parser)
        ensures
            p.wf(),
            p.toks().len() == 0,
            p.pos() == 0,
            !p.eof_seen(),
    {
        Parser { tokens: Vec::new(), position: 0, found_eof: false }
    }

    /// The token under the cursor, `Eof` once the stream is exhausted.
    fn curr_token(&self) -> (t: Token)
        requires
            self.wf(),
        ensures
            t == tok_at(self.toks(), self.pos()),
    {
        if self.position < self.tokens.len() {
            self.tokens[self.position]
        } else {
            Token::Eof
        }
    }

    /// The token after the cursor, `Eof` once the stream is exhausted.
    fn peek_token(&self) -> (t: Token)
        requires
            self.wf(),
        ensures
            t == tok_at(self.toks(), self.pos() + 1),
    {
        if self.position < self.tokens.len() && self.tokens.len() - self.position > 1 {
            self.tokens[self.position + 1]
        } else {
            Token::Eof
        }
    }

    /// Advances the cursor one token, stopping at the stream's end.
    fn next_token(&mut self)
        requires
            old(self).wf(),
        ensures
            final(self).wf(),
            final(self).toks() == old(self).toks(),
            final(self).eof_seen() == old(self).eof_seen(),
            final(self).pos() == adv(old(self).toks(), old(self).pos()),
    {
        if self.position < self.tokens.len() {
            self.position = self.position + 1;
        }
    }

    /// The binding power of the token after the cursor.
    fn peek_precedence(&self) -> (p: u8)
        requires
            self.wf(),
        ensures
            p == spec_precedence(tok_at(self.toks(), self.pos() + 1)),
    {
        self.peek_token().precedence()
    }

    /// Whether the token under the cursor is exactly `expected`.
    fn test_current_token(&self, expected: Token) -> (r: bool)
        requires
            self.wf(),
        ensures
            r == (tok_at(self.toks(), self.pos()) == expected),
    {
        self.curr_token() == expected
    }

    /// Parses a prefix application at the cursor.
    fn parse_prefix(&mut self) -> (r: Option<Expression>)
        requires
            old(self).wf(),
            tok_at(old(self).toks(), old(self).pos()) != Token::Eof,
        ensures
            final(self).wf(),
            final(self).toks() == old(self).toks(),
            final(self).pos() >= old(self).pos() + 1,
            ({
                let (l, j, f) = spec_parse_prefix(old(self).toks(), old(self).pos());
                r == l && final(self).pos() == j && final(self).eof_seen() == (old(
                    self,
                ).eof_seen() || f)
            }),
        decreases decr(self.toks(), self.pos()), 2int,
    {
        let op = self.curr_token();
        self.next_token();
        let right = self.parse_expression(PREFIX);
        match right {
            Some(e) => Some(Expression::Prefix { operator: op, right: Box::new(e) }),
            None => None,
        }
    }

    /// Folds `left` with the operator at the cursor, as the spec mirror
    /// describes: implicit multiplication before `(`, postfix `!`, or a
    /// left-associative binary operator.
    fn parse_infix(&mut self, left: Option<Expression>) -> (r: Option<Expression>)
        requires
            old(self).wf(),
            tok_at(old(self).toks(), old(self).pos()) != Token::Eof,
        ensures
            final(self).wf(),
            final(self).toks() == old(self).toks(),
            final(self).pos() >= old(self).pos(),
            ({
                let (l, j, f) = spec_parse_infix(old(self).toks(), left, old(self).pos());
                r == l && final(self).pos() == j && final(self).eof_seen() == (old(
                    self,
                ).eof_seen() || f)
            }),
        decreases decr(self.toks(), self.pos()), 2int,
    {
        if self.test_current_token(Token::LParen) {
            self.next_token();
            let right = self.parse_expression(LOWEST);
            self.next_token();
            if !self.test_current_token(Token::RParen) {
                return None;
            }
            match (left, right) {
                (Some(l), Some(e)) => Some(
                    Expression::Infix {
                        left: Box::new(l),
                        operator: Token::Multiply,
                        right: Box::new(e),
                    },
                ),
                _ => None,
            }
        } else if self.test_current_token(Token::Exclamation) {
            match left {
                Some(l) => Some(
                    Expression::Unary { operator: Token::Exclamation, expression: Box::new(l) },
                ),
                None => None,
            }
        } else {
            let op = self.curr_token();
            let precedense = op.precedence();
            self.next_token();
            let right = self.parse_expression(precedense);
            match (left, right) {
                (Some(l), Some(e)) => Some(
                    Expression::Infix { left: Box::new(l), operator: op, right: Box::new(e) },
                ),
                _ => None,
            }
        }
    }

    /// The climbing loop, written as tail recursion so that it mirrors its
    /// spec function step for step.
    fn parse_loop(&mut self, left: Option<Expression>, precedense: u8) -> (r: Option<Expression>)
        requires
            old(self).wf(),
        ensures
            final(self).wf(),
            final(self).toks() == old(self).toks(),
            final(self).pos() >= old(self).pos(),
            ({
                let (l, j, f) = spec_parse_loop(old(self).toks(), left, old(self).pos(), precedense);
                r == l && final(self).pos() == j && final(self).eof_seen() == (old(
                    self,
                ).eof_seen() || f)
            }),
        decreases decr(self.toks(), self.pos()), 1int,
    {
        let p = self.peek_precedence();
        if precedense < p {
            self.next_token();
            if self.test_current_token(Token::Eof) {
                self.found_eof = true;
                left
            } else {
                let l2 = self.parse_infix(left);
                self.parse_loop(l2, precedense)
            }
        } else {
            left
        }
    }

    /// Parses one expression at the cursor with the given minimum binding
    /// power.
    fn parse_expression(&mut self, precedense: u8) -> (r: Option<Expression>)
        requires
            old(self).wf(),
        ensures
            final(self).wf(),
            final(self).toks() == old(self).toks(),
            final(self).pos() >= old(self).pos(),
            ({
                let (l, j, f) = spec_parse_expression(
                    old(self).toks(),
                    old(self).pos(),
                    precedense,
                );
                r == l && final(self).pos() == j && final(self).eof_seen() == (old(
                    self,
                ).eof_seen() || f)
            }),
        decreases decr(self.toks(), self.pos()), 3int,
    {
        let left: Option<Expression> = match self.curr_token() {
            Token::Eof => {
                return None;
            },
            Token::Minus => self.parse_prefix(),
            Token::LParen => {
                self.next_token();
                let expr = self.parse_expression(LOWEST);
                self.next_token();
                if !self.test_current_token(Token::RParen) {
                    return None;
                }
                expr
            },
            Token::Number(value) => Some(Expression::Integer { value: value as i64 }),
            Token::Decimal { mantissa, scale } => Some(Expression::Decimal { mantissa, scale }),
            _ => {
                return None;
            },
        };
        self.parse_loop(left, precedense)
    }

    /// Parses one input text completely. The result is exactly
    /// `spec_parse` of the text: the first lexing failure if there is one;
    /// otherwise the expression, or `None` when the input is empty or
    /// incomplete (a trailing operator, an unmatched parenthesis).
    pub fn parse(&mut self, input: String) -> (r: Result<Option<Expression>, LexError>)
        ensures
            r == spec_parse(input@),
    {
        let mut lexer = Lexer::new(input);
        self.found_eof = false;
        self.position = 0;
        match lexer.tokens() {
            Err(e) => {
                self.tokens = Vec::new();
                Err(e)
            },
            Ok(toks) => {
                self.tokens = toks;
                if self.test_current_token(Token::Eof) {
                    return Ok(None);
                }
                let expression = self.parse_expression(LOWEST);
                if !self.found_eof {
                    return Ok(None);
                }
                if expression.is_none() {
                    return Ok(None);
                }
                Ok(expression)
            },
        }
    }
}

/// Parsing the decimal text of any whole number in the number token's
/// range yields exactly that integer literal.
pub proof fn lemma_parse_integer_literal(n: u32)
    ensures
        spec_parse(crate::lexer::decimal_digits(n as nat)) == Ok::<Option<Expression>, LexError>(
            Some(Expression::Integer { value: n as i64 }),
        ),
{
    crate::lexer::lemma_tokens_of_decimal_digits(n);
    let toks = seq![Token::Number(n), Token::Eof];
    let leaf = Expression::Integer { value: n as i64 };
    assert(tok_at(toks, 0) == Token::Number(n));
    assert(tok_at(toks, 1) == Token::Eof);
    assert(adv(toks, 0) == 1);
    assert(spec_parse_loop(toks, Some(leaf), 0, LOWEST) == (Some(leaf), 1int, true));
    assert(spec_parse_expression(toks, 0, LOWEST) == (Some(leaf), 1int, true));
    assert(spec_parse_result(toks) == Some(leaf));
}

/// Parsing is a pure function of the input text: two parses of the same
/// string, each meeting `parse`'s contract (as a fresh parser instance
/// does), produce structurally identical results.
pub proof fn lemma_parse_deterministic(
    s: Seq<char>,
    r1: Result<Option<Expression>, LexError>,
    r2: Result<Option<Expression>, LexError>,
)
    requires
        r1 == spec_parse(s),
        r2 == spec_parse(s),
    ensures
        r1 == r2,
{
}

impl Default for Parser {
    /// A fresh parser, the same as `Parser::new`.
    fn default() -> (p: Self)
        ensures
            p.wf(),
            p.toks().len() == 0,
            p.pos() == 0,
            !p.eof_seen(),
    {
        Parser::new()
    }
}

} // verus!
