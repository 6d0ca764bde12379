//! The order of primitives. Two primitives of different types have no
//! order.

use crate::date_time::DateTime;
use crate::key::Segment;
use crate::number::{float_rank, rank_of, Float, Integer};
use crate::quotes::{Quoted, Quotes};
use crate::text::{sign_of_texts, text_sign, Sign};
use crate::value::Primitive;
use std::cmp::Ordering;
use vstd::prelude::*;
use vstd::std_specs::cmp::PartialOrdSpecImpl;

verus! {

/// The order of two numbers.
pub open spec fn int_order(a: int, b: int) -> Ordering {
    if a < b {
        Ordering::Less
    } else if a == b {
        Ordering::Equal
    } else {
        Ordering::Greater
    }
}

/// The order of two texts: that of the first characters in which they
/// differ, by code point; a text comes before every text that it starts.
pub open spec fn text_order(a: Seq<char>, b: Seq<char>) -> Ordering {
    match text_sign(a, b) {
        Sign::Less => Ordering::Less,
        Sign::Equal => Ordering::Equal,
        Sign::Greater => Ordering::Greater,
    }
}

/// The place of a quoting among the four: single-line before multi-line,
/// and single quotes before double quotes.
pub open spec fn quoting_rank<T>(quoted: Quoted<T>) -> int {
    match quoted {
        Quoted::SingleLine(Quotes::Single(_)) => 0,
        Quoted::SingleLine(Quotes::Double(_)) => 1,
        Quoted::MultiLine(Quotes::Single(_)) => 2,
        Quoted::MultiLine(Quotes::Double(_)) => 3,
    }
}

/// The order of two quoted strings: by their quoting first, then by their
/// texts.
pub open spec fn quoted_order(a: Quoted<String>, b: Quoted<String>) -> Ordering {
    if quoting_rank(a) != quoting_rank(b) {
        int_order(quoting_rank(a), quoting_rank(b))
    } else {
        text_order(a.spec_inner()@, b.spec_inner()@)
    }
}

/// The order of two instants: by their seconds first, then by their
/// nanoseconds.
pub open spec fn instant_order(a: DateTime, b: DateTime) -> Ordering {
    if a.instant().0 != b.instant().0 {
        int_order(a.instant().0, b.instant().0)
    } else {
        int_order(a.instant().1, b.instant().1)
    }
}

/// The order of two floats; none where one of them is a NaN.
pub open spec fn float_order(a: Float, b: Float) -> Option<Ordering> {
    match (float_rank(a.spec_number().bits), float_rank(b.spec_number().bits)) {
        (Some(x), Some(y)) => Some(int_order(x, y)),
        _ => None,
    }
}

/// The order of two primitives: that of their values where both are of one
/// type, and none otherwise.
pub open spec fn primitive_order(a: Primitive, b: Primitive) -> Option<Ordering> {
    match (a, b) {
        (Primitive::String(x), Primitive::String(y)) => Some(quoted_order(x, y)),
        (Primitive::Integer(x), Primitive::Integer(y)) => Some(int_order(x.number(), y.number())),
        (Primitive::Float(x), Primitive::Float(y)) => float_order(x, y),
        (Primitive::Boolean(x), Primitive::Boolean(y)) => Some(
            int_order(
                if x {
                    1
                } else {
                    0
                },
                if y {
                    1
                } else {
                    0
                },
            ),
        ),
        (Primitive::DateTime(x), Primitive::DateTime(y)) => Some(instant_order(x, y)),
        _ => None,
    }
}

/// The order of two texts.
pub fn compare_texts(a: &str, b: &str) -> (order: Ordering)
    ensures
        order == text_order(a@, b@),
{
    match sign_of_texts(a, b) {
        Sign::Less => Ordering::Less,
        Sign::Equal => Ordering::Equal,
        Sign::Greater => Ordering::Greater,
    }
}

/// The place of a quoting among the four.
pub fn rank_of_quoting(quoted: &Quoted<String>) -> (rank: u8)
    ensures
        rank == quoting_rank(*quoted),
{
    match quoted {
        Quoted::SingleLine(Quotes::Single(_)) => 0,
        Quoted::SingleLine(Quotes::Double(_)) => 1,
        Quoted::MultiLine(Quotes::Single(_)) => 2,
        Quoted::MultiLine(Quotes::Double(_)) => 3,
    }
}

/// The order of two quoted strings.
pub fn compare_quoted(a: &Quoted<String>, b: &Quoted<String>) -> (order: Ordering)
    ensures
        order == quoted_order(*a, *b),
{
    let x = rank_of_quoting(a);
    let y = rank_of_quoting(b);
    if x < y {
        Ordering::Less
    } else if x > y {
        Ordering::Greater
    } else {
        compare_texts(a.inner().as_str(), b.inner().as_str())
    }
}

impl PartialOrd for Segment {
    /// Segments are ordered as their texts are, however they are quoted.
    fn partial_cmp(&self, other: &Segment) -> (order: Option<Ordering>) {
        Some(compare_texts(self.text(), other.text()))
    }
}

impl PartialOrdSpecImpl for Segment {
    open spec fn obeys_partial_cmp_spec() -> bool {
        true
    }

    open spec fn partial_cmp_spec(&self, other: &Segment) -> Option<Ordering> {
        Some(text_order(self.spec_text(), other.spec_text()))
    }
}

impl PartialOrd for Integer {
    fn partial_cmp(&self, other: &Integer) -> (order: Option<Ordering>) {
        let a = self.value();
        let b = other.value();
        if a < b {
            Some(Ordering::Less)
        } else if a == b {
            Some(Ordering::Equal)
        } else {
            Some(Ordering::Greater)
        }
    }
}

impl PartialOrdSpecImpl for Integer {
    open spec fn obeys_partial_cmp_spec() -> bool {
        true
    }

    open spec fn partial_cmp_spec(&self, other: &Integer) -> Option<Ordering> {
        Some(int_order(self.number(), other.number()))
    }
}

impl PartialOrd for Float {
    fn partial_cmp(&self, other: &Float) -> (order: Option<Ordering>) {
        match (rank_of(self.bits()), rank_of(other.bits())) {
            (Some(a), Some(b)) => if a < b {
                Some(Ordering::Less)
            } else if a == b {
                Some(Ordering::Equal)
            } else {
                Some(Ordering::Greater)
            },
            _ => None,
        }
    }
}

impl PartialOrdSpecImpl for Float {
    open spec fn obeys_partial_cmp_spec() -> bool {
        true
    }

    open spec fn partial_cmp_spec(&self, other: &Float) -> Option<Ordering> {
        float_order(*self, *other)
    }
}

impl PartialOrd for DateTime {
    fn partial_cmp(&self, other: &DateTime) -> (order: Option<Ordering>) {
        if self.seconds() < other.seconds() {
            Some(Ordering::Less)
        } else if self.seconds() > other.seconds() {
            Some(Ordering::Greater)
        } else if self.nanoseconds() < other.nanoseconds() {
            Some(Ordering::Less)
        } else if self.nanoseconds() > other.nanoseconds() {
            Some(Ordering::Greater)
        } else {
            Some(Ordering::Equal)
        }
    }
}

impl PartialOrdSpecImpl for DateTime {
    open spec fn obeys_partial_cmp_spec() -> bool {
        true
    }

    open spec fn partial_cmp_spec(&self, other: &DateTime) -> Option<Ordering> {
        Some(instant_order(*self, *other))
    }
}

impl PartialOrd for Primitive {
    fn partial_cmp(&self, other: &Primitive) -> (order: Option<Ordering>) {
        match (self, other) {
            (Primitive::String(a), Primitive::String(b)) => Some(compare_quoted(a, b)),
            (Primitive::Integer(a), Primitive::Integer(b)) => a.partial_cmp(b),
            (Primitive::Float(a), Primitive::Float(b)) => a.partial_cmp(b),
            (Primitive::Boolean(a), Primitive::Boolean(b)) => if *a == *b {
                Some(Ordering::Equal)
            } else if *b {
                Some(Ordering::Less)
            } else {
                Some(Ordering::Greater)
            },
            (Primitive::DateTime(a), Primitive::DateTime(b)) => a.partial_cmp(b),
            _ => None,
        }
    }
}

impl PartialOrdSpecImpl for Primitive {
    open spec fn obeys_partial_cmp_spec() -> bool {
        true
    }

    open spec fn partial_cmp_spec(&self, other: &Primitive) -> Option<Ordering> {
        primitive_order(*self, *other)
    }
}

} // verus!
