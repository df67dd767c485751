//! What the program's output looks like as text.
//!
//! The machine hands back values; this module says which characters stand
//! for them on the outside: a number in decimal, a character as itself, a
//! stack dump as a bracketed list on a line of its own.

use vstd::prelude::*;

use crate::machine::Output;
use crate::semantics::Emission;
use crate::text::{decimal_value, is_digit, is_number, signed_literal, signed_operand};

verus! {

const DIGIT_ZERO: u8 = 48;

/// The character for the digit `d`.
pub open spec fn digit_char(d: int) -> char
    recommends
        0 <= d < 10,
{
    ('0' as int + d) as char
}

/// The digits of `n` in decimal, most significant first, without leading
/// zeros.
pub open spec fn digits_of(n: nat) -> Seq<char>
    decreases n,
{
    if n < 10 {
        seq![digit_char(n as int)]
    } else {
        digits_of(n / 10).push(digit_char((n % 10) as int))
    }
}

/// The decimal text of `v`: its digits, behind `-` where `v` is negative.
pub open spec fn decimal_of(v: int) -> Seq<char> {
    if v < 0 {
        seq!['-'] + digits_of((-v) as nat)
    } else {
        digits_of(v as nat)
    }
}

/// The decimal texts of `values`, separated by a comma and a blank.
pub open spec fn list_of(values: Seq<isize>) -> Seq<char>
    decreases values.len(),
{
    if values.len() == 0 {
        Seq::empty()
    } else if values.len() == 1 {
        decimal_of(values[0] as int)
    } else {
        list_of(values.drop_last()) + seq![',', ' '] + decimal_of(values.last() as int)
    }
}

/// The text that stands for one emission.
pub open spec fn rendering(emission: Emission) -> Seq<char> {
    match emission {
        Emission::Number(v) => decimal_of(v as int),
        Emission::Character(c) => seq![c],
        Emission::StackDump(values) => seq!['['] + list_of(values) + seq![']', '\n'],
    }
}

/// The text that stands for a run's emissions: their texts, one behind the
/// other.
pub open spec fn transcript(emissions: Seq<Emission>) -> Seq<char>
    decreases emissions.len(),
{
    if emissions.len() == 0 {
        Seq::empty()
    } else {
        transcript(emissions.drop_last()) + rendering(emissions.last())
    }
}

/// The character for the digit `d`.
fn digit(d: usize) -> (c: char)
    requires
        d < 10,
    ensures
        c == digit_char(d as int),
{
    (DIGIT_ZERO + d as u8) as char
}

/// Appends the digits of `n`.
fn push_digits(text: &mut Vec<char>, n: usize)
    ensures
        final(text)@ == old(text)@ + digits_of(n as nat),
    decreases n,
{
    if n >= 10 {
        push_digits(text, n / 10);
    }
    text.push(digit(n % 10));
    assert(text@ =~= old(text)@ + digits_of(n as nat));
}

/// Appends the decimal text of `v`.
fn push_decimal(text: &mut Vec<char>, v: isize)
    ensures
        final(text)@ == old(text)@ + decimal_of(v as int),
{
    if v < 0 {
        text.push('-');
        let magnitude: usize = (-(v + 1)) as usize + 1;
        push_digits(text, magnitude);
        assert(text@ =~= old(text)@ + decimal_of(v as int));
    } else {
        push_digits(text, v as usize);
    }
}

/// Appends the decimal texts of `values`, separated by a comma and a blank.
fn push_list(text: &mut Vec<char>, values: &Vec<isize>)
    ensures
        final(text)@ == old(text)@ + list_of(values@),
{
    let mut i: usize = 0;
    assert(values@.take(0).len() == 0);
    assert(text@ =~= old(text)@ + list_of(values@.take(0)));
    while i < values.len()
        invariant
            i <= values@.len(),
            text@ == old(text)@ + list_of(values@.take(i as int)),
        decreases values@.len() - i,
    {
        let ghost shorter = values@.take(i as int);
        let ghost longer = values@.take(i + 1);
        assert(longer.drop_last() =~= shorter);
        assert(longer.last() == values@[i as int]);
        if i > 0 {
            text.push(',');
            text.push(' ');
        }
        push_decimal(text, values[i]);
        assert(text@ =~= old(text)@ + list_of(longer));
        i = i + 1;
    }
    assert(values@.take(i as int) =~= values@);
}

impl Output {
    /// The text that stands for this output.
    pub fn render(&self) -> (text: Vec<char>)
        ensures
            text@ == rendering(self@),
    {
        let mut text: Vec<char> = Vec::new();
        match self {
            Output::Number(v) => {
                push_decimal(&mut text, *v);
            },
            Output::Character(c) => {
                text.push(*c);
            },
            Output::StackDump(values) => {
                text.push('[');
                push_list(&mut text, values);
                text.push(']');
                text.push('\n');
            },
        }
        assert(text@ =~= rendering(self@));
        text
    }
}

/// The text that stands for a run's outputs.
pub fn render_all(outputs: &[Output]) -> (text: Vec<char>)
    ensures
        text@ == transcript(crate::machine::emissions(outputs@)),
{
    let ghost all = crate::machine::emissions(outputs@);
    let mut text: Vec<char> = Vec::new();
    let mut i: usize = 0;
    while i < outputs.len()
        invariant
            i <= outputs@.len(),
            all == crate::machine::emissions(outputs@),
            text@ == transcript(all.take(i as int)),
        decreases outputs@.len() - i,
    {
        assert(all.take(i + 1).drop_last() =~= all.take(i as int));
        assert(all.take(i + 1).last() == outputs@[i as int]@);
        let mut piece: Vec<char> = outputs[i].render();
        text.append(&mut piece);
        i = i + 1;
    }
    assert(all.take(i as int) =~= all);
    text
}

/// The digits of a number are digits, and spell that number.
pub proof fn digits_spell_their_number(n: nat)
    ensures
        is_number(digits_of(n)),
        decimal_value(digits_of(n)) == n,
    decreases n,
{
    let digits = digits_of(n);
    let c = digit_char((n % 10) as int);
    assert(is_digit(c));
    assert(c as int - '0' as int == n % 10);
    assert(digits.last() == c);
    if n >= 10 {
        digits_spell_their_number(n / 10);
        let shorter = digits_of(n / 10);
        assert(digits.drop_last() =~= shorter);
        assert forall|i: int| 0 <= i < digits.len() implies is_digit(#[trigger] digits[i]) by {
            if i < shorter.len() {
                assert(digits[i] == shorter[i]);
            }
        }
    } else {
        assert(digits.drop_last() =~= Seq::<char>::empty());
        assert(decimal_value(digits.drop_last()) == 0);
    }
}

/// Reading gives back what rendering wrote: the decimal text of an integer
/// is a signed literal, and the literal spells that integer.
pub proof fn literal_of_decimal_text(v: int)
    ensures
        signed_literal(decimal_of(v)) == Some(v),
{
    if v < 0 {
        let digits = digits_of((-v) as nat);
        digits_spell_their_number((-v) as nat);
        assert(decimal_of(v).skip(1) =~= digits);
    } else {
        let digits = digits_of(v as nat);
        digits_spell_their_number(v as nat);
        assert(is_digit(digits[0]));
    }
}

/// What `Print` writes for a stack value is what `Push` reads as that value.
pub proof fn operand_of_decimal_text(v: isize)
    ensures
        signed_operand(decimal_of(v as int)) == Some(v),
{
    literal_of_decimal_text(v as int);
}

} // verus!
