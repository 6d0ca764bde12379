//! Integers and floats, each with the notation it is written in.

use crate::escape::escape::{hex_char, hex_digit};
use crate::text::push_text;
use vstd::prelude::*;

verus! {

/// An integer with the radix it is written in. The radix bears on the text
/// only: two integers are equal where their values are.
#[derive(Clone, Copy, Debug)]
pub enum Integer {
    /// Written in binary, with the prefix `0b`.
    Binary(i64),
    /// Written in decimal.
    Decimal(i64),
    /// Written in octal, with the prefix `0o`.
    Octal(i64),
    /// Written in hexadecimal, with the prefix `0x`.
    Hex(i64),
}

/// The digits of `n` in the given base, the highest first, lowercase. (For a
/// base of 2 or more `n / base` is below `n` wherever `n` is not below
/// `base`; the last condition only tells the verifier that the definition
/// comes to an end.)
pub open spec fn digits(n: nat, base: nat) -> Seq<char>
    decreases n,
{
    if base < 2 || n < base || n / base >= n {
        seq![hex_char(n as int)]
    } else {
        digits(n / base, base).push(hex_char((n % base) as int))
    }
}

/// The 64 bits of `v` in two's complement, read as a number without sign.
pub open spec fn unsigned(v: i64) -> nat {
    if v < 0 {
        (v + 0x1_0000_0000_0000_0000) as nat
    } else {
        v as nat
    }
}

/// An integer as it is written: a decimal number with `-` before a negative
/// one; or the prefix of the radix and the digits of the 64 bits in two's
/// complement.
pub open spec fn integer_text(integer: Integer) -> Seq<char> {
    match integer {
        Integer::Binary(v) => seq!['0', 'b'] + digits(unsigned(v), 2),
        Integer::Decimal(v) => if v < 0 {
            seq!['-'] + digits((-v) as nat, 10)
        } else {
            digits(v as nat, 10)
        },
        Integer::Octal(v) => seq!['0', 'o'] + digits(unsigned(v), 8),
        Integer::Hex(v) => seq!['0', 'x'] + digits(unsigned(v), 16),
    }
}

/// Appends the digits of `n` in the given base.
pub fn push_digits(out: &mut String, n: u64, base: u64)
    requires
        2 <= base <= 16,
    ensures
        final(out)@ == old(out)@ + digits(n as nat, base as nat),
    decreases n,
{
    if n < base {
        out.push(hex_digit(n as u32));
    } else {
        proof {
            assert(n / base < n) by (nonlinear_arith)
                requires
                    2 <= base <= n,
            ;
        }
        push_digits(out, n / base, base);
        out.push(hex_digit((n % base) as u32));
        proof {
            let high = digits((n / base) as nat, base as nat);
            let low = hex_char((n % base) as int);
            assert(old(out)@ + high.push(low) == (old(out)@ + high).push(low));
        }
    }
}

/// The 64 bits of `v` in two's complement, read as a number without sign.
pub fn to_unsigned(v: i64) -> (n: u64)
    ensures
        n == unsigned(v),
{
    if v < 0 {
        let below: u64 = (v + i64::MAX + 1) as u64;
        below + 0x8000_0000_0000_0000
    } else {
        v as u64
    }
}

impl Integer {
    /// The value, whatever the radix.
    pub open spec fn spec_value(self) -> i64 {
        match self {
            Integer::Binary(v) => v,
            Integer::Decimal(v) => v,
            Integer::Octal(v) => v,
            Integer::Hex(v) => v,
        }
    }

    /// The value as a number without bounds.
    pub open spec fn number(self) -> int {
        self.spec_value() as int
    }

    /// The value, whatever the radix.
    #[verifier::when_used_as_spec(spec_value)]
    pub fn value(self) -> (v: i64)
        ensures
            v == self.spec_value(),
    {
        match self {
            Integer::Binary(v) => v,
            Integer::Decimal(v) => v,
            Integer::Octal(v) => v,
            Integer::Hex(v) => v,
        }
    }

    /// The integer as it is written.
    pub fn to_string(&self) -> (text: String)
        ensures
            text@ == integer_text(*self),
    {
        let mut text = String::new();
        match *self {
            Integer::Binary(v) => {
                text.push('0');
                text.push('b');
                push_digits(&mut text, to_unsigned(v), 2);
            },
            Integer::Decimal(v) => {
                if v < 0 {
                    text.push('-');
                    let magnitude: u64 = (-(v + 1)) as u64 + 1;
                    push_digits(&mut text, magnitude, 10);
                } else {
                    push_digits(&mut text, v as u64, 10);
                }
            },
            Integer::Octal(v) => {
                text.push('0');
                text.push('o');
                push_digits(&mut text, to_unsigned(v), 8);
            },
            Integer::Hex(v) => {
                text.push('0');
                text.push('x');
                push_digits(&mut text, to_unsigned(v), 16);
            },
        }
        text
    }
}

impl PartialEq for Integer {
    fn eq(&self, other: &Integer) -> (equal: bool) {
        self.value() == other.value()
    }
}

impl vstd::std_specs::cmp::PartialEqSpecImpl for Integer {
    open spec fn obeys_eq_spec() -> bool {
        true
    }

    open spec fn eq_spec(&self, other: &Integer) -> bool {
        self.spec_value() == other.spec_value()
    }
}

impl From<i64> for Integer {
    fn from(from: i64) -> (integer: Integer) {
        Integer::Decimal(from)
    }
}

impl vstd::std_specs::convert::FromSpecImpl<i64> for Integer {
    open spec fn obeys_from_spec() -> bool {
        true
    }

    open spec fn from_spec(from: i64) -> Integer {
        Integer::Decimal(from)
    }
}

impl From<Integer> for i64 {
    fn from(from: Integer) -> (value: i64) {
        from.value()
    }
}

impl vstd::std_specs::convert::FromSpecImpl<Integer> for i64 {
    open spec fn obeys_from_spec() -> bool {
        true
    }

    open spec fn from_spec(from: Integer) -> i64 {
        from.spec_value()
    }
}

/// A float as the document holds it: the 64 bits of its IEEE 754 form, by
/// which it is compared, and the literal by which it is written. The library
/// computes nothing with floats.
#[derive(Clone, Debug)]
pub struct Number {
    /// The IEEE 754 binary64 form of the value.
    pub bits: u64,
    /// The value as it is written.
    pub text: String,
}

/// A float with the notation it is written in. The notation bears on the
/// text only: two floats are equal where their values are.
#[derive(Clone, Debug)]
pub enum Float {
    /// Written with a decimal point.
    Decimal(Number),
    /// Written with an exponent.
    Scientific(Number),
}

/// Where the value that `bits` encode stands on the number line, in units
/// that keep the order: `None` for a NaN, which has no place; the same place
/// for both zeros.
pub open spec fn float_rank(bits: u64) -> Option<int> {
    let magnitude: int = if bits >= 0x8000_0000_0000_0000 {
        bits - 0x8000_0000_0000_0000
    } else {
        bits as int
    };
    if magnitude > 0x7ff0_0000_0000_0000 {
        None
    } else if bits >= 0x8000_0000_0000_0000 {
        Some(-magnitude)
    } else {
        Some(magnitude)
    }
}

/// Executable form of [`float_rank`].
pub fn rank_of(bits: u64) -> (rank: Option<i128>)
    ensures
        rank is Some == float_rank(bits) is Some,
        rank is Some ==> rank->0 == float_rank(bits)->0,
{
    let negative = bits >= 0x8000_0000_0000_0000;
    let magnitude: u64 = if negative {
        bits - 0x8000_0000_0000_0000
    } else {
        bits
    };
    if magnitude > 0x7ff0_0000_0000_0000 {
        None
    } else if negative {
        Some(-(magnitude as i128))
    } else {
        Some(magnitude as i128)
    }
}

impl Float {
    /// The number, whatever the notation.
    pub open spec fn spec_number(self) -> Number {
        match self {
            Float::Decimal(n) => n,
            Float::Scientific(n) => n,
        }
    }

    /// The number, whatever the notation.
    pub fn number(&self) -> (n: &Number)
        ensures
            *n == self.spec_number(),
    {
        match self {
            Float::Decimal(n) => n,
            Float::Scientific(n) => n,
        }
    }

    /// The IEEE 754 binary64 form of the value.
    pub fn bits(&self) -> (bits: u64)
        ensures
            bits == self.spec_number().bits,
    {
        self.number().bits
    }

    /// The float as it is written.
    pub fn to_string(&self) -> (text: String)
        ensures
            text@ == self.spec_number().text@,
    {
        let mut text = String::new();
        push_text(&mut text, self.number().text.as_str());
        text
    }
}

impl PartialEq for Float {
    fn eq(&self, other: &Float) -> (equal: bool) {
        match (rank_of(self.bits()), rank_of(other.bits())) {
            (Some(a), Some(b)) => a == b,
            _ => false,
        }
    }
}

impl vstd::std_specs::cmp::PartialEqSpecImpl for Float {
    open spec fn obeys_eq_spec() -> bool {
        true
    }

    open spec fn eq_spec(&self, other: &Float) -> bool {
        let a = float_rank(self.spec_number().bits);
        let b = float_rank(other.spec_number().bits);
        a is Some && b is Some && a->0 == b->0
    }
}

} // verus!
