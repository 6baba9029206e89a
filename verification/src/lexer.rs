use vstd::prelude::*;
use vstd::string::StrSliceExecFns;

use crate::error::LexError;
use crate::token::{digit_value, is_digit_char, Token};

verus! {

/// Whether `c` may appear inside a numeric literal's character run.
pub open spec fn is_number_char(c: char) -> bool {
    is_digit_char(c) || c == '.'
}

/// The exclusive end of the maximal run of digits and decimal points that
/// starts at `i`.
pub open spec fn scan_end(s: Seq<char>, i: int) -> int
    decreases s.len() - i,
{
    if 0 <= i < s.len() && is_number_char(s[i]) {
        scan_end(s, i + 1)
    } else {
        i
    }
}

pub proof fn lemma_scan_end_bounds(s: Seq<char>, i: int)
    requires
        0 <= i <= s.len(),
    ensures
        i <= scan_end(s, i) <= s.len(),
        i < s.len() && is_number_char(s[i]) ==> scan_end(s, i) >= i + 1,
    decreases s.len() - i,
{
    if i < s.len() && is_number_char(s[i]) {
        lemma_scan_end_bounds(s, i + 1);
    }
}

/// The numeric value of the digits of `s` read left to right, ignoring any
/// other characters.
pub open spec fn num_value(s: Seq<char>) -> nat
    decreases s.len(),
{
    if s.len() == 0 {
        0
    } else {
        let rest = num_value(s.drop_last());
        if is_digit_char(s.last()) {
            (rest * 10 + digit_value(s.last())) as nat
        } else {
            rest
        }
    }
}

/// How many decimal points `s` holds.
pub open spec fn dot_count(s: Seq<char>) -> nat
    decreases s.len(),
{
    if s.len() == 0 {
        0
    } else {
        dot_count(s.drop_last()) + if s.last() == '.' {
            1nat
        } else {
            0nat
        }
    }
}

/// How many digits of `s` stand after its first decimal point.
pub open spec fn frac_len(s: Seq<char>) -> nat
    decreases s.len(),
{
    if s.len() == 0 {
        0
    } else {
        frac_len(s.drop_last()) + if is_digit_char(s.last()) && dot_count(s.drop_last()) >= 1 {
            1nat
        } else {
            0nat
        }
    }
}

proof fn lemma_counts_le(s: Seq<char>)
    ensures
        dot_count(s) <= s.len(),
        frac_len(s) <= s.len(),
    decreases s.len(),
{
    if s.len() > 0 {
        lemma_counts_le(s.drop_last());
    }
}

/// How one more character changes the three accumulators.
proof fn lemma_num_step(p: Seq<char>, c: char)
    ensures
        num_value(p.push(c)) == if is_digit_char(c) {
            (num_value(p) * 10 + digit_value(c)) as nat
        } else {
            num_value(p)
        },
        dot_count(p.push(c)) == dot_count(p) + if c == '.' {
            1nat
        } else {
            0nat
        },
        frac_len(p.push(c)) == frac_len(p) + if is_digit_char(c) && dot_count(p) >= 1 {
            1nat
        } else {
            0nat
        },
{
    assert(p.push(c).drop_last() =~= p);
    assert(p.push(c).last() == c);
}

/// The digit character for a single decimal digit.
pub open spec fn digit_char(d: nat) -> char {
    if d == 0 {
        '0'
    } else if d == 1 {
        '1'
    } else if d == 2 {
        '2'
    } else if d == 3 {
        '3'
    } else if d == 4 {
        '4'
    } else if d == 5 {
        '5'
    } else if d == 6 {
        '6'
    } else if d == 7 {
        '7'
    } else if d == 8 {
        '8'
    } else {
        '9'
    }
}

/// The decimal text of a whole number, most significant digit first.
pub open spec fn decimal_digits(n: nat) -> Seq<char>
    decreases n,
{
    if n < 10 {
        seq![digit_char(n)]
    } else {
        decimal_digits(n / 10).push(digit_char(n % 10))
    }
}

/// The decimal text of a number reads back as that number: it is one or
/// more digit characters, holds no decimal point, and its digits' value
/// is the number itself.
pub proof fn lemma_decimal_digits(n: nat)
    ensures
        decimal_digits(n).len() >= 1,
        num_value(decimal_digits(n)) == n,
        dot_count(decimal_digits(n)) == 0,
        forall|k: int|
            0 <= k < decimal_digits(n).len() ==> is_digit_char(#[trigger] decimal_digits(n)[k]),
    decreases n,
{
    if n < 10 {
        let s = decimal_digits(n);
        assert(s =~= seq![digit_char(n)]);
        assert(s.drop_last() =~= Seq::<char>::empty());
        assert(num_value(Seq::<char>::empty()) == 0);
        assert(dot_count(Seq::<char>::empty()) == 0);
        assert(digit_value(digit_char(n)) == n);
        assert(num_value(s) == n);
    } else {
        let p = decimal_digits(n / 10);
        let c = digit_char(n % 10);
        lemma_decimal_digits(n / 10);
        lemma_num_step(p, c);
        assert(decimal_digits(n) == p.push(c));
        assert(digit_value(c) == n % 10);
        vstd::arithmetic::div_mod::lemma_fundamental_div_mod(n as int, 10);
        assert(num_value(decimal_digits(n)) == n);
        assert forall|k: int| 0 <= k < decimal_digits(n).len() implies is_digit_char(
            #[trigger] decimal_digits(n)[k],
        ) by {
            if k < p.len() {
                assert(decimal_digits(n)[k] == p[k]);
            } else {
                assert(decimal_digits(n)[k] == c);
            }
        }
    }
}

/// A run of digit characters scans through to `s`'s end.
pub proof fn lemma_scan_end_full(s: Seq<char>, i: int)
    requires
        0 <= i <= s.len(),
        forall|k: int| i <= k < s.len() ==> is_number_char(#[trigger] s[k]),
    ensures
        scan_end(s, i) == s.len(),
    decreases s.len() - i,
{
    if i < s.len() {
        lemma_scan_end_full(s, i + 1);
    }
}

/// Lexing the decimal text of a whole number that fits the `Number`
/// token yields exactly that number token and the end of input.
pub proof fn lemma_tokens_of_decimal_digits(n: u32)
    ensures
        spec_tokens(decimal_digits(n as nat)) == Ok::<Seq<Token>, LexError>(
            seq![Token::Number(n), Token::Eof],
        ),
{
    let s = decimal_digits(n as nat);
    lemma_decimal_digits(n as nat);
    lemma_scan_end_full(s, 0);
    assert(s.subrange(0, s.len() as int) =~= s);
    assert(spec_next_token(s, 0) == Ok::<(Token, int), LexError>((
        Token::Number(n),
        s.len() as int,
    )));
    assert(spec_next_token(s, s.len() as int) == Ok::<(Token, int), LexError>((
        Token::Eof,
        s.len() as int,
    )));
    assert(spec_tokens_from(s, s.len() as int) == Ok::<Seq<Token>, LexError>(seq![Token::Eof]));
    assert(seq![Token::Number(n)] + seq![Token::Eof] =~= seq![Token::Number(n), Token::Eof]);
}

/// The token a maximal digit-and-dot run stands for. A run without a dot
/// is a whole number and must fit the `Number` token; a run with one dot
/// is a fractional literal carried as mantissa and scale; anything else
/// fails to parse as a number.
pub open spec fn spec_number_token(run: Seq<char>) -> Result<Token, LexError> {
    if dot_count(run) == 0 {
        if num_value(run) <= u32::MAX {
            Ok(Token::Number(num_value(run) as u32))
        } else {
            Err(LexError::FailedToParseNumber)
        }
    } else if dot_count(run) == 1 {
        if num_value(run) <= u64::MAX {
            Ok(Token::Decimal { mantissa: num_value(run) as u64, scale: frac_len(run) as usize })
        } else {
            Err(LexError::FailedToParseNumber)
        }
    } else {
        Err(LexError::FailedToParseNumber)
    }
}

/// What one pull on the lexer yields at position `i` of `s`: the token and
/// the position of the first character after it. Past the end of input the
/// position stays put and the token is `Eof`, so the lexer is safely
/// re-callable once exhausted.
pub open spec fn spec_next_token(s: Seq<char>, i: int) -> Result<(Token, int), LexError> {
    if !(0 <= i < s.len()) {
        Ok((Token::Eof, i))
    } else {
        let c = s[i];
        if is_digit_char(c) {
            match spec_number_token(s.subrange(i, scan_end(s, i))) {
                Ok(t) => Ok((t, scan_end(s, i))),
                Err(e) => Err(e),
            }
        } else if c == '=' || c == '\n' {
            Ok((Token::Eof, i + 1))
        } else if c == ' ' {
            Ok((Token::Nop, i + 1))
        } else if c == '(' {
            Ok((Token::LParen, i + 1))
        } else if c == ')' {
            Ok((Token::RParen, i + 1))
        } else if c == '+' {
            Ok((Token::Plus, i + 1))
        } else if c == '-' {
            Ok((Token::Minus, i + 1))
        } else if c == '*' || c == '\u{d7}' {
            Ok((Token::Multiply, i + 1))
        } else if c == '/' || c == '\u{f7}' {
            Ok((Token::Divide, i + 1))
        } else if c == '^' {
            Ok((Token::Caret, i + 1))
        } else if c == '%' {
            Ok((Token::Percent, i + 1))
        } else if c == '.' {
            Ok((Token::Period, i + 1))
        } else if c == '!' {
            Ok((Token::Exclamation, i + 1))
        } else {
            Err(LexError::UnknownCharacter(c))
        }
    }
}

/// The whole token stream from position `i` on: every token up to and
/// including the first `Eof`, or the first lexing failure.
pub open spec fn spec_tokens_from(s: Seq<char>, i: int) -> Result<Seq<Token>, LexError>
    decreases s.len() - i,
{
    match spec_next_token(s, i) {
        Err(e) => Err(e),
        Ok((t, j)) => if t == Token::Eof {
            Ok(seq![Token::Eof])
        } else {
            proof {
                if 0 <= i <= s.len() {
                    lemma_scan_end_bounds(s, i);
                }
            }
            match spec_tokens_from(s, j) {
                Err(e) => Err(e),
                Ok(rest) => Ok(seq![t] + rest),
            }
        },
    }
}

/// The token stream of a whole input text.
pub open spec fn spec_tokens(s: Seq<char>) -> Result<Seq<Token>, LexError> {
    spec_tokens_from(s, 0)
}

/// The lexer: the input text and a read cursor, pulled one token per call.
pub struct Lexer {
    input: String,
    length: usize,
    position: usize,
    ch: Option<char>,
}

impl Lexer {
    /// The input as a character sequence.
    pub closed spec fn chars(&self) -> Seq<char> {
        self.input@
    }

    /// The index of the next character to classify.
    pub closed spec fn pos(&self) -> int {
        self.position as int
    }

    /// The cursor sits inside the input (or just past it), and the
    /// one-character lookahead holds exactly the character under it.
    pub closed spec fn wf(&self) -> bool {
        &&& self.length == self.input@.len()
        &&& self.position <= self.length
        &&& self.ch == (if self.position < self.input@.len() {
            Some(self.input@[self.position as int])
        } else {
            None::<char>
        })
    }

    pub fn new(input: String) -> (lexer: Lexer)
        ensures
            lexer.wf(),
            lexer.chars() == input@,
            lexer.pos() == 0,
    {
        let length = input.as_str().unicode_len();
        let ch = if length > 0 {
            Some(input.as_str().get_char(0))
        } else {
            None
        };
        Lexer { input, length, position: 0, ch }
    }

    /// Advances the cursor one character, stopping at the end of input.
    fn read_char(&mut self)
        requires
            old(self).wf(),
        ensures
            final(self).wf(),
            final(self).chars() == old(self).chars(),
            final(self).pos() == if old(self).pos() < old(self).chars().len() {
                old(self).pos() + 1
            } else {
                old(self).pos()
            },
    {
        if self.position < self.length {
            self.position = self.position + 1;
        }
        if self.position < self.length {
            self.ch = Some(self.input.as_str().get_char(self.position));
        } else {
            self.ch = None;
        }
    }

    /// Whether the character after the cursor is a digit.
    fn peek_is_digit(&self) -> (r: bool)
        requires
            self.wf(),
        ensures
            r == (self.pos() + 1 < self.chars().len() && is_digit_char(
                self.chars()[self.pos() + 1],
            )),
    {
        if self.position < self.length && self.length - self.position > 1 {
            let c = self.input.as_str().get_char(self.position + 1);
            '0' <= c && c <= '9'
        } else {
            false
        }
    }

    /// Whether the character after the cursor may continue a number run.
    fn peek_is_number_char(&self) -> (r: bool)
        requires
            self.wf(),
        ensures
            r == (self.pos() + 1 < self.chars().len() && is_number_char(
                self.chars()[self.pos() + 1],
            )),
    {
        if self.peek_is_digit() {
            true
        } else if self.position < self.length && self.length - self.position > 1 {
            let c = self.input.as_str().get_char(self.position + 1);
            c == '.'
        } else {
            false
        }
    }

    /// Reads the maximal run of digits and decimal points that starts at
    /// the cursor, leaving the cursor on the run's last character. The
    /// run's end is computed exactly, never past the input.
    fn read_number(&mut self) -> (r: Result<Token, LexError>)
        requires
            old(self).wf(),
            0 <= old(self).pos() < old(self).chars().len(),
            is_digit_char(old(self).chars()[old(self).pos()]),
        ensures
            final(self).wf(),
            final(self).chars() == old(self).chars(),
            final(self).pos() == scan_end(old(self).chars(), old(self).pos()) - 1,
            r == spec_number_token(
                old(self).chars().subrange(
                    old(self).pos(),
                    scan_end(old(self).chars(), old(self).pos()),
                ),
            ),
    {
        let ghost s = self.chars();
        let ghost start = self.pos();
        let ghost end = scan_end(s, start);
        proof {
            lemma_scan_end_bounds(s, start);
        }

        let c0 = self.ch.unwrap();
        let mut value: u64 = (c0 as u32 - 48) as u64;
        let mut overflowed: bool = false;
        let mut dots: usize = 0;
        let mut frac: usize = 0;

        proof {
            let p0 = s.subrange(start, start + 1);
            assert(p0 =~= Seq::<char>::empty().push(s[start]));
            lemma_num_step(Seq::<char>::empty(), s[start]);
        }

        while self.peek_is_number_char()
            invariant
                self.wf(),
                self.chars() == s,
                0 <= start <= self.pos(),
                self.pos() + 1 <= s.len(),
                scan_end(s, self.pos() + 1) == end,
                ({
                    let p = s.subrange(start, self.pos() + 1);
                    &&& overflowed == (num_value(p) > u64::MAX)
                    &&& !overflowed ==> value == num_value(p)
                    &&& dots == (if dot_count(p) >= 2 {
                        2int
                    } else {
                        dot_count(p) as int
                    })
                    &&& frac == frac_len(p)
                }),
            decreases s.len() - self.pos(),
        {
            let ghost p_old = s.subrange(start, self.pos() + 1);
            self.read_char();
            let c = self.ch.unwrap();
            proof {
                assert(s.subrange(start, self.pos() + 1) =~= p_old.push(c));
                lemma_num_step(p_old, c);
                lemma_counts_le(p_old);
            }
            if c == '.' {
                if dots < 2 {
                    dots = dots + 1;
                }
            } else {
                if !overflowed {
                    let d = (c as u32 - 48) as u64;
                    match value.checked_mul(10) {
                        Some(v10) => {
                            match v10.checked_add(d) {
                                Some(v) => {
                                    value = v;
                                },
                                None => {
                                    overflowed = true;
                                },
                            }
                        },
                        None => {
                            overflowed = true;
                        },
                    }
                } else {
                    proof {
                        let p = s.subrange(start, self.pos() + 1);
                        assert(num_value(p_old) * 10 >= num_value(p_old)) by (nonlinear_arith);
                        assert(num_value(p) > u64::MAX);
                    }
                }
                if dots >= 1 {
                    frac = frac + 1;
                }
            }
        }

        proof {
            assert(scan_end(s, self.pos() + 1) == self.pos() + 1);
            assert(self.pos() == end - 1);
        }
        if dots == 0 {
            if !overflowed && value <= u32::MAX as u64 {
                Ok(Token::Number(value as u32))
            } else {
                Err(LexError::FailedToParseNumber)
            }
        } else if dots == 1 {
            if !overflowed {
                Ok(Token::Decimal { mantissa: value, scale: frac })
            } else {
                Err(LexError::FailedToParseNumber)
            }
        } else {
            Err(LexError::FailedToParseNumber)
        }
    }

    /// Classifies one character: operators and grouping map one to one,
    /// `=` and a newline end the input, a space is a no-op token, a digit
    /// starts a number run, and anything else is unknown.
    fn lookup_token(&mut self, ch: char) -> (r: Result<Token, LexError>)
        requires
            old(self).wf(),
            0 <= old(self).pos() < old(self).chars().len(),
            old(self).chars()[old(self).pos()] == ch,
        ensures
            final(self).wf(),
            final(self).chars() == old(self).chars(),
            match spec_next_token(old(self).chars(), old(self).pos()) {
                Ok((t, j)) => r == Ok::<Token, LexError>(t) && final(self).pos() == j - 1,
                Err(e) => r == Err::<Token, LexError>(e),
            },
    {
        match ch {
            '(' => Ok(Token::LParen),
            ')' => Ok(Token::RParen),
            '+' => Ok(Token::Plus),
            '-' => Ok(Token::Minus),
            '*' => Ok(Token::Multiply),
            '/' => Ok(Token::Divide),
            '\u{d7}' => Ok(Token::Multiply),
            '\u{f7}' => Ok(Token::Divide),
            '^' => Ok(Token::Caret),
            '%' => Ok(Token::Percent),
            '.' => Ok(Token::Period),
            '!' => Ok(Token::Exclamation),
            '=' | '\n' => Ok(Token::Eof),
            ' ' => Ok(Token::Nop),
            _ => {
                if '0' <= ch && ch <= '9' {
                    self.read_number()
                } else {
                    Err(LexError::UnknownCharacter(ch))
                }
            },
        }
    }

    /// Pulls the next token. At the end of input this returns `Eof` and
    /// leaves the cursor alone, so repeated calls keep returning `Eof`.
    pub fn next_token(&mut self) -> (r: Result<Token, LexError>)
        requires
            old(self).wf(),
        ensures
            final(self).wf(),
            final(self).chars() == old(self).chars(),
            match spec_next_token(old(self).chars(), old(self).pos()) {
                Ok((t, j)) => r == Ok::<Token, LexError>(t) && final(self).pos() == j,
                Err(e) => r == Err::<Token, LexError>(e),
            },
    {
        match self.ch {
            None => Ok(Token::Eof),
            Some(c) => {
                proof {
                    lemma_scan_end_bounds(old(self).chars(), old(self).pos());
                }
                let token = self.lookup_token(c);
                self.read_char();
                token
            },
        }
    }

    /// Pulls tokens until the first `Eof` and returns them all, `Eof`
    /// included, or the first lexing failure.
    pub fn tokens(&mut self) -> (r: Result<Vec<Token>, LexError>)
        requires
            old(self).wf(),
        ensures
            final(self).wf(),
            final(self).chars() == old(self).chars(),
            match spec_tokens_from(old(self).chars(), old(self).pos()) {
                Ok(ts) => r matches Ok(v) && v@ == ts,
                Err(e) => r == Err::<Vec<Token>, LexError>(e),
            },
    {
        let ghost s = self.chars();
        let ghost start = self.pos();
        let mut toks: Vec<Token> = Vec::new();
        loop
            invariant
                self.wf(),
                self.chars() == s,
                s == old(self).chars(),
                start == old(self).pos(),
                0 <= self.pos(),
                match spec_tokens_from(s, self.pos()) {
                    Ok(rest) => spec_tokens_from(s, start) == Ok::<Seq<Token>, LexError>(
                        toks@ + rest,
                    ),
                    Err(e) => spec_tokens_from(s, start) == Err::<Seq<Token>, LexError>(e),
                },
            decreases s.len() - self.pos(),
        {
            let ghost p = self.pos();
            let ghost toks_old = toks@;
            match self.next_token() {
                Err(e) => {
                    return Err(e);
                },
                Ok(t) => {
                    toks.push(t);
                    if t == Token::Eof {
                        proof {
                            assert(toks@ =~= toks_old + seq![Token::Eof]);
                        }
                        return Ok(toks);
                    }
                    proof {
                        if 0 <= p <= s.len() {
                            lemma_scan_end_bounds(s, p);
                        }
                        assert(toks@ == toks_old.push(t));
                        match spec_tokens_from(s, self.pos()) {
                            Ok(rest) => {
                                assert(spec_tokens_from(s, p) == Ok::<Seq<Token>, LexError>(
                                    seq![t] + rest,
                                ));
                                assert(toks_old + (seq![t] + rest) =~= toks_old.push(t) + rest);
                            },
                            Err(e) => {
                                assert(spec_tokens_from(s, p) == Err::<Seq<Token>, LexError>(e));
                            },
                        }
                    }
                },
            }
        }
    }
}

} // verus!
