//! Tokens: comparing them, and reading the integers they spell.
//!
//! A token is a string; in contracts it stands for its sequence of
//! characters.

use vstd::prelude::*;
use vstd::string::*;
use vstd::utf8::*;

verus! {

const DIGIT_ZERO: u8 = 48;

const DIGIT_NINE: u8 = 57;

const PLUS_SIGN: u8 = 43;

const MINUS_SIGN: u8 = 45;

/// `c` is one of the ten decimal digits.
pub open spec fn is_digit(c: char) -> bool {
    '0' <= c <= '9'
}

/// The number that the digit `c` stands for.
pub open spec fn digit_value(c: char) -> int {
    c as int - '0' as int
}

/// `digits` is a run of at least one decimal digit.
pub open spec fn is_number(digits: Seq<char>) -> bool {
    digits.len() > 0 && forall|i: int| 0 <= i < digits.len() ==> is_digit(#[trigger] digits[i])
}

/// The number that a run of decimal digits spells, most significant digit
/// first.
pub open spec fn decimal_value(digits: Seq<char>) -> int
    decreases digits.len(),
{
    if digits.len() == 0 {
        0
    } else {
        10 * decimal_value(digits.drop_last()) + digit_value(digits.last())
    }
}

/// The integer that `text` spells as an unsigned literal: digits, with `+`
/// allowed in front. Nothing else is a literal: no blank, no separator, no
/// sign without digits.
pub open spec fn unsigned_literal(text: Seq<char>) -> Option<int> {
    let digits = if text.len() > 0 && text[0] == '+' {
        text.skip(1)
    } else {
        text
    };
    if is_number(digits) {
        Some(decimal_value(digits))
    } else {
        None
    }
}

/// The integer that `text` spells as a signed literal: an unsigned literal,
/// or `-` and digits.
pub open spec fn signed_literal(text: Seq<char>) -> Option<int> {
    if text.len() > 0 && text[0] == '-' {
        if is_number(text.skip(1)) {
            Some(-decimal_value(text.skip(1)))
        } else {
            None
        }
    } else {
        unsigned_literal(text)
    }
}

/// The stack value that `text` spells, if it spells one that fits.
pub open spec fn signed_operand(text: Seq<char>) -> Option<isize> {
    match signed_literal(text) {
        Some(v) => if isize::MIN <= v <= isize::MAX {
            Some(v as isize)
        } else {
            None
        },
        None => None,
    }
}

/// The index that `text` spells, if it spells one that fits.
pub open spec fn index_operand(text: Seq<char>) -> Option<usize> {
    match unsigned_literal(text) {
        Some(v) => if 0 <= v <= usize::MAX {
            Some(v as usize)
        } else {
            None
        },
        None => None,
    }
}

/// A run of digits is worth at least as much as each run it starts with.
proof fn decimal_value_grows(digits: Seq<char>, k: int)
    requires
        0 <= k <= digits.len(),
        forall|i: int| 0 <= i < digits.len() ==> is_digit(#[trigger] digits[i]),
    ensures
        0 <= decimal_value(digits.take(k)) <= decimal_value(digits),
    decreases digits.len() - k,
{
    if k == digits.len() {
        assert(digits.take(k) =~= digits);
        decimal_value_is_natural(digits);
    } else {
        decimal_value_grows(digits, k + 1);
        let longer = digits.take(k + 1);
        assert(longer.drop_last() =~= digits.take(k));
        assert(is_digit(digits[k]));
        assert(longer.last() == digits[k]);
        decimal_value_is_natural(digits.take(k));
    }
}

/// A run of digits never spells a negative number.
proof fn decimal_value_is_natural(digits: Seq<char>)
    requires
        forall|i: int| 0 <= i < digits.len() ==> is_digit(#[trigger] digits[i]),
    ensures
        0 <= decimal_value(digits),
    decreases digits.len(),
{
    if digits.len() > 0 {
        decimal_value_is_natural(digits.drop_last());
        assert(is_digit(digits[digits.len() - 1]));
    }
}

/// Whether two strings hold the same text.
pub fn same_text(a: &str, b: &str) -> (same: bool)
    ensures
        same == (a@ == b@),
{
    let x: &[u8] = a.as_bytes();
    let y: &[u8] = b.as_bytes();
    proof {
        encode_utf8_decode_utf8(a@);
        encode_utf8_decode_utf8(b@);
    }
    if x.len() != y.len() {
        return false;
    }
    let mut i: usize = 0;
    while i < x.len()
        invariant
            x@.len() == y@.len(),
            i <= x@.len(),
            forall|j: int| 0 <= j < i ==> x@[j] == y@[j],
            x@ == encode_utf8(a@),
            y@ == encode_utf8(b@),
        decreases x@.len() - i,
    {
        if x[i] != y[i] {
            return false;
        }
        i = i + 1;
    }
    assert(x@ =~= y@);
    true
}

/// Reads the digits of `text` from position `start` to the end.
fn parse_digits(text: &str, start: usize) -> (r: Option<usize>)
    requires
        is_ascii_chars(text@),
        start <= text@.len(),
    ensures
        match r {
            Some(v) => is_number(text@.skip(start as int)) && v == decimal_value(
                text@.skip(start as int),
            ),
            None => !is_number(text@.skip(start as int)) || decimal_value(
                text@.skip(start as int),
            ) > usize::MAX,
        },
{
    let bytes: &[u8] = text.as_bytes();
    let n: usize = bytes.len();
    let ghost digits = text@.skip(start as int);
    proof {
        is_ascii_chars_encode_utf8(text@);
    }
    if start >= n {
        return None;
    }
    let mut value: usize = 0;
    let mut i: usize = start;
    while i < n
        invariant
            start <= i <= n,
            n == text@.len(),
            n == bytes@.len(),
            digits == text@.skip(start as int),
            bytes@ == encode_utf8(text@),
            is_ascii_chars(text@),
            forall|j: int| 0 <= j < text@.len() ==> text@[j] as u8 == #[trigger] bytes@[j],
            forall|j: int| 0 <= j < i - start ==> is_digit(#[trigger] digits[j]),
            value == decimal_value(digits.take(i - start)),
        decreases n - i,
    {
        let b: u8 = bytes[i];
        assert(digits[i - start] == text@[i as int]);
        assert(text@[i as int] as u8 == b);
        if b < DIGIT_ZERO || b > DIGIT_NINE {
            assert(!is_digit(digits[i - start]));
            return None;
        }
        assert(is_digit(digits[i - start]));
        let d: usize = (b - DIGIT_ZERO) as usize;
        proof {
            let longer = digits.take(i - start + 1);
            assert(longer.drop_last() =~= digits.take(i - start));
            assert(longer.last() == digits[i - start]);
            assert(decimal_value(longer) == 10 * value + d);
            if is_number(digits) {
                decimal_value_grows(digits, i - start + 1);
            }
        }
        let shifted: usize = match value.checked_mul(10) {
            Some(v) => v,
            None => {
                return None;
            },
        };
        value = match shifted.checked_add(d) {
            Some(v) => v,
            None => {
                return None;
            },
        };
        i = i + 1;
    }
    assert(digits.take(n - start) =~= digits);
    Some(value)
}

/// A character beyond ASCII keeps `text` from being a literal.
proof fn literals_are_ascii(text: Seq<char>)
    requires
        !is_ascii_chars(text),
    ensures
        signed_literal(text) is None,
        unsigned_literal(text) is None,
{
    let i = choose|i: int| 0 <= i < text.len() && !('\0' <= #[trigger] text[i] <= '\u{7f}');
    if i == 0 {
        assert(!is_digit(text[0]));
    } else {
        assert(text.skip(1)[i - 1] == text[i]);
        assert(!is_digit(text.skip(1)[i - 1]));
        assert(!is_digit(text[i]));
    }
}

/// Reads a stack slot offset: digits, with `+` allowed in front.
pub fn parse_index(text: &str) -> (r: Option<usize>)
    ensures
        r == index_operand(text@),
{
    if !text.is_ascii() {
        proof {
            literals_are_ascii(text@);
        }
        return None;
    }
    let bytes: &[u8] = text.as_bytes();
    proof {
        is_ascii_chars_encode_utf8(text@);
    }
    if bytes.len() == 0 {
        return None;
    }
    assert(text@[0] as u8 == bytes@[0]);
    let start: usize = if bytes[0] == PLUS_SIGN {
        1
    } else {
        0
    };
    assert(text@.skip(0) =~= text@);
    proof {
        if is_number(text@.skip(start as int)) {
            decimal_value_is_natural(text@.skip(start as int));
        }
    }
    parse_digits(text, start)
}

/// Reads a stack value: digits, with `+` or `-` allowed in front.
pub fn parse_signed(text: &str) -> (r: Option<isize>)
    ensures
        r == signed_operand(text@),
{
    if !text.is_ascii() {
        proof {
            literals_are_ascii(text@);
        }
        return None;
    }
    let bytes: &[u8] = text.as_bytes();
    proof {
        is_ascii_chars_encode_utf8(text@);
    }
    if bytes.len() == 0 {
        return None;
    }
    assert(text@[0] as u8 == bytes@[0]);
    assert(text@.skip(0) =~= text@);
    let limit: usize = isize::MAX as usize;
    if bytes[0] == MINUS_SIGN {
        proof {
            if is_number(text@.skip(1)) {
                decimal_value_is_natural(text@.skip(1));
            }
        }
        match parse_digits(text, 1) {
            Some(magnitude) => {
                if magnitude == 0 {
                    Some(0)
                } else if magnitude - 1 <= limit {
                    Some(-((magnitude - 1) as isize) - 1)
                } else {
                    None
                }
            },
            None => None,
        }
    } else {
        let start: usize = if bytes[0] == PLUS_SIGN {
            1
        } else {
            0
        };
        match parse_digits(text, start) {
            Some(magnitude) => {
                if magnitude <= limit {
                    Some(magnitude as isize)
                } else {
                    None
                }
            },
            None => None,
        }
    }
}

} // verus!
