use vstd::prelude::*;

verus! {

/// The closed set of characters the calculator's input surface accepts:
/// the ten digits, the ASCII operator symbols, and the Unicode
/// multiplication sign, division sign, and minus sign that a display
/// layer may substitute for the ASCII forms.
pub open spec fn is_valid_char(c: char) -> bool {
    ||| ('0' <= c && c <= '9')
    ||| c == '+'
    ||| c == '-'
    ||| c == '*'
    ||| c == '/'
    ||| c == '('
    ||| c == ')'
    ||| c == '%'
    ||| c == '^'
    ||| c == '.'
    ||| c == '='
    ||| c == '!'
    ||| c == '\u{d7}'
    ||| c == '\u{f7}'
    ||| c == '\u{2212}'
}

/// Accepts exactly the fixed symbol set above; every letter, every
/// whitespace character, and all other punctuation are rejected.
pub fn validate(input: &char) -> (r: bool)
    ensures
        r == is_valid_char(*input),
{
    let c = *input;
    ('0' <= c && c <= '9') || c == '+' || c == '-' || c == '*' || c == '/' || c == '(' || c == ')'
        || c == '%' || c == '^' || c == '.' || c == '=' || c == '!' || c == '\u{d7}'
        || c == '\u{f7}' || c == '\u{2212}'
}

} // verus!
