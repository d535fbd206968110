//! Typed extraction: the next token of a stream, read as a value.

use crate::tokens::{SourceEnd, WhitespaceSplit};
use vstd::prelude::*;
use vstd::string::StrSliceExecFns;

verus! {

/// Why a token is not an unsigned decimal number.
#[derive(Clone, Copy, Debug, PartialEq, Eq)]
pub enum IntError {
    /// The token is empty.
    Empty,
    /// The token has a character that is no digit, or no digit at all.
    InvalidDigit,
    /// The digits stand for a number above `usize::MAX`.
    Overflow,
}

/// Why no value could be read from a token stream.
#[derive(Debug, PartialEq, Eq)]
pub enum ReadError {
    /// A token was asked for after the last one of a complete input.
    UnexpectedEnd,
    /// A token was asked for and the line source failed to deliver a line.
    SourceFailed,
    /// The token is not a value of the type asked for.
    Malformed {
        /// The text of the token.
        token: String,
        /// What the parser said about it.
        diagnostic: String,
    },
}

/// `c` is one of the ten decimal digits.
pub open spec fn is_digit(c: char) -> bool {
    '0' <= c && c <= '9'
}

/// The number that the digit `c` stands for.
pub open spec fn digit_value(c: char) -> nat {
    (c as int - '0' as int) as nat
}

/// The number that a sequence of digits stands for in base ten.
pub open spec fn decimal_value(digits: Seq<char>) -> nat
    decreases digits.len(),
{
    if digits.len() == 0 {
        0
    } else {
        10 * decimal_value(digits.drop_last()) + digit_value(digits.last())
    }
}

/// Every character of `s` is a digit.
pub open spec fn all_digits(s: Seq<char>) -> bool {
    forall|i: int| 0 <= i < s.len() ==> is_digit(#[trigger] s[i])
}

/// The token without its leading plus sign, if it has one.
pub open spec fn unsigned_part(token: Seq<char>) -> Seq<char> {
    if token.len() > 0 && token[0] == '+' {
        token.skip(1)
    } else {
        token
    }
}

/// The value of a token read as an unsigned decimal number: an optional plus
/// sign, then one or more digits, standing for a number that fits `usize`.
pub open spec fn parse_usize_spec(token: Seq<char>) -> Result<usize, IntError> {
    let digits = unsigned_part(token);
    if token.len() == 0 {
        Err(IntError::Empty)
    } else if digits.len() == 0 || !all_digits(digits) {
        Err(IntError::InvalidDigit)
    } else if decimal_value(digits) > usize::MAX {
        Err(IntError::Overflow)
    } else {
        Ok(decimal_value(digits) as usize)
    }
}

impl IntError {
    /// The text that describes the error.
    pub open spec fn message_spec(self) -> Seq<char> {
        match self {
            IntError::Empty => "cannot parse integer from empty string"@,
            IntError::InvalidDigit => "invalid digit found in string"@,
            IntError::Overflow => "number too large to fit in target type"@,
        }
    }

    /// The text that describes the error.
    pub fn message(&self) -> (text: String)
        ensures
            text@ == self.message_spec(),
    {
        match self {
            IntError::Empty => "cannot parse integer from empty string".to_owned(),
            IntError::InvalidDigit => "invalid digit found in string".to_owned(),
            IntError::Overflow => "number too large to fit in target type".to_owned(),
        }
    }
}

/// The ASCII code of `+`.
const PLUS: u8 = 43;

/// The ASCII code of `0`.
const ZERO: u8 = 48;

/// The ASCII code of `9`.
const NINE: u8 = 57;

/// Reads `token` as an unsigned decimal number.
pub fn parse_usize(token: &str) -> (r: Result<usize, IntError>)
    ensures
        r == parse_usize_spec(token@),
{
    if !token.is_ascii() {
        // A character outside ASCII is neither the plus sign nor a digit.
        proof {
            let i = choose|i: int|
                0 <= i < token@.len() && !('\0' <= #[trigger] token@[i] && token@[i] <= '\u{7f}');
            let at = if token@[0] == '+' {
                i - 1
            } else {
                i
            };
            assert(!is_digit(unsigned_part(token@)[at]));
        }
        return Err(IntError::InvalidDigit);
    }
    let n: usize = token.unicode_len();
    if n == 0 {
        return Err(IntError::Empty);
    }
    let start: usize = if token.get_ascii(0) == PLUS {
        1
    } else {
        0
    };
    let ghost digits = unsigned_part(token@);
    if start == n {
        return Err(IntError::InvalidDigit);
    }
    let mut value: usize = 0;
    let mut fits = true;
    let mut i: usize = start;
    while i < n
        invariant
            token.is_ascii(),
            n == token@.len(),
            digits == unsigned_part(token@),
            digits == token@.skip(start as int),
            start <= i <= n,
            all_digits(digits.take(i - start)),
            fits ==> value == decimal_value(digits.take(i - start)),
            !fits ==> decimal_value(digits.take(i - start)) > usize::MAX,
        decreases n - i,
    {
        let b: u8 = token.get_ascii(i);
        assert(digits[i - start] == token@[i as int]);
        if b < ZERO || b > NINE {
            return Err(IntError::InvalidDigit);
        }
        assert(digits.take(i - start + 1).drop_last() == digits.take(i - start));
        if fits {
            let d: usize = (b - ZERO) as usize;
            match value.checked_mul(10) {
                Some(tens) => match tens.checked_add(d) {
                    Some(sum) => {
                        value = sum;
                    },
                    None => {
                        fits = false;
                    },
                },
                None => {
                    fits = false;
                },
            }
        }
        i = i + 1;
    }
    assert(digits.take(n - start) == digits);
    if fits {
        Ok(value)
    } else {
        Err(IntError::Overflow)
    }
}

/// The error of a stream that has no token left, by the way its source ends.
pub open spec fn end_error(end: SourceEnd) -> ReadError {
    match end {
        SourceEnd::Complete => ReadError::UnexpectedEnd,
        SourceEnd::Failed => ReadError::SourceFailed,
    }
}

/// `outcome` is what `parse` may return for a token with the text `token`.
pub open spec fn parses_to<V, F: Fn(&str) -> Result<V, String>>(
    parse: F,
    token: Seq<char>,
    outcome: Result<V, String>,
) -> bool {
    exists|s: &str| s@ == token && #[trigger] call_ensures(parse, (s,), outcome)
}

/// Takes the next token from the stream; an exhausted or failed stream is an
/// error.
fn next_token(ws: &mut WhitespaceSplit) -> (r: Result<String, ReadError>)
    ensures
        final(ws)@.end == old(ws)@.end,
        match r {
            Ok(token) => {
                &&& old(ws)@.tokens().len() > 0
                &&& token@ == old(ws)@.tokens()[0]
                &&& final(ws)@.tokens() == old(ws)@.tokens().skip(1)
            },
            Err(e) => {
                &&& old(ws)@.tokens().len() == 0
                &&& e == end_error(old(ws)@.end)
                &&& final(ws)@ == old(ws)@
            },
        },
{
    match ws.next() {
        Some(Ok(token)) => Ok(token),
        Some(Err(_)) => Err(ReadError::SourceFailed),
        None => Err(ReadError::UnexpectedEnd),
    }
}

/// What reading `token` gives once the parser has said `parsed` of it: the
/// value, or the token and the parser's diagnostic as a malformed-token
/// error.
pub fn typed_result<V>(token: String, parsed: Result<V, String>) -> (r: Result<V, ReadError>)
    ensures
        match parsed {
            Ok(v) => r == Ok::<V, ReadError>(v),
            Err(diagnostic) => r == Err::<V, ReadError>(ReadError::Malformed { token, diagnostic }),
        },
{
    match parsed {
        Ok(v) => Ok(v),
        Err(diagnostic) => Err(ReadError::Malformed { token, diagnostic }),
    }
}

/// Takes the next token from the stream and reads it with `parse`.
///
/// Without a token left the stream is unchanged and the error says how its
/// source ended. Otherwise exactly one token leaves the stream, whatever
/// `parse` says of it: its value is returned, or the token comes back in a
/// malformed-token error together with the diagnostic of `parse`.
pub fn next_val<V, F: Fn(&str) -> Result<V, String>>(ws: &mut WhitespaceSplit, parse: &F) -> (r:
    Result<V, ReadError>)
    requires
        forall|s: &str| call_requires(*parse, (s,)),
    ensures
        final(ws)@.end == old(ws)@.end,
        if old(ws)@.tokens().len() == 0 {
            &&& r == Err::<V, ReadError>(end_error(old(ws)@.end))
            &&& final(ws)@ == old(ws)@
        } else {
            &&& final(ws)@.tokens() == old(ws)@.tokens().skip(1)
            &&& match r {
                Ok(v) => parses_to(*parse, old(ws)@.tokens()[0], Ok(v)),
                Err(ReadError::Malformed { token, diagnostic }) => {
                    &&& token@ == old(ws)@.tokens()[0]
                    &&& parses_to(*parse, token@, Err(diagnostic))
                },
                Err(_) => false,
            }
        },
{
    let token = next_token(ws)?;
    let parsed = parse(token.as_str());
    typed_result(token, parsed)
}

/// Takes the next token from the stream and reads it as an unsigned decimal
/// number.
///
/// Without a token left the stream is unchanged and the error says how its
/// source ended. Otherwise exactly one token leaves the stream: its value is
/// returned, or the token comes back in a malformed-token error that says
/// why it is no number.
pub fn next_usize(ws: &mut WhitespaceSplit) -> (r: Result<usize, ReadError>)
    ensures
        final(ws)@.end == old(ws)@.end,
        if old(ws)@.tokens().len() == 0 {
            &&& r == Err::<usize, ReadError>(end_error(old(ws)@.end))
            &&& final(ws)@ == old(ws)@
        } else {
            &&& final(ws)@.tokens() == old(ws)@.tokens().skip(1)
            &&& match parse_usize_spec(old(ws)@.tokens()[0]) {
                Ok(v) => r == Ok::<usize, ReadError>(v),
                Err(e) => {
                    &&& r matches Err(ReadError::Malformed { token, diagnostic })
                    &&& token@ == old(ws)@.tokens()[0]
                    &&& diagnostic@ == e.message_spec()
                },
            }
        },
{
    let token = next_token(ws)?;
    match parse_usize(token.as_str()) {
        Ok(v) => Ok(v),
        Err(e) => Err(ReadError::Malformed { token, diagnostic: e.message() }),
    }
}

} // verus!
