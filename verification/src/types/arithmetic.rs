//! The operators on values.
//!
//! Every operator has a result for every pair of values: where it is not
//! defined for their kinds, the result is the object without entries.
//!
//! This library does no floating-point arithmetic. Where the result is a
//! number, the operator names the operation and its operands, as a
//! [`FloatOp`], and the host computes it; where a string is multiplied by a
//! number, the host turns the number into two counts and [`repeat`] builds
//! the string.

use vstd::prelude::*;
use vstd::string::StringExecFns;
use crate::chars::{code_points, string_of};
use crate::types::boolean::{both, either, flipped, Boolean};
use crate::types::number::{bits_of_boolean, bits_zero, boolean_bits, is_zero, sign_negative, SIGN};
use crate::types::text::text_of;
use crate::types::value::{is_empty_object, truth, Value};

verus! {

/// An operation on numbers, given by their bit patterns, that is left to
/// the host. Where there are two operands, the first is the left one.
#[derive(Clone, Copy, Debug, PartialEq, Eq, Structural)]
pub enum FloatOp {
    Sum(u64, u64),
    Difference(u64, u64),
    Product(u64, u64),
    Quotient(u64, u64),
    Remainder(u64, u64),
    Negation(u64),
}

/// What an operator gives.
#[derive(Debug, PartialEq, Eq)]
pub enum Outcome {
    /// The result itself.
    Value(Value),
    /// The result is the number that the operation gives.
    Number(FloatOp),
    /// The result is `text` repeated: as many whole times as the magnitude
    /// of `factor` has whole units, then as many of its first characters as
    /// the rest of the magnitude, times the length of `text` in characters,
    /// rounds to; all of it backwards where `backwards` holds. [`repeat`]
    /// builds it from the two counts.
    Repeat { text: String, factor: u64, backwards: bool },
}

/// What an operator is to give, as mathematics has it.
pub enum Expected {
    /// The object without entries.
    Nothing,
    /// This boolean.
    Truth(Boolean),
    /// A string with this text.
    Text(Seq<char>),
    /// The number that this operation gives.
    Number(FloatOp),
    /// This text repeated by this factor.
    Repeat { text: Seq<char>, factor: u64 },
}

/// Whether an outcome is what was expected.
pub open spec fn meets(outcome: Outcome, expected: Expected) -> bool {
    match expected {
        Expected::Nothing => outcome matches Outcome::Value(v) && is_empty_object(v),
        Expected::Truth(b) => outcome == Outcome::Value(Value::Boolean(b)),
        Expected::Text(text) => outcome matches Outcome::Value(Value::String(s)) && s@ == text,
        Expected::Number(op) => outcome == Outcome::Number(op),
        Expected::Repeat { text, factor } => outcome matches Outcome::Repeat {
            text: s,
            factor: f,
            backwards,
        } && s@ == text && f == factor && backwards == sign_negative(factor),
    }
}

/// `+`: numbers add up; a boolean and a number add up with the boolean as
/// 1, 0 or 0.5, the boolean to the left; a string to the left takes what is
/// written for the value to the right at its end.
pub open spec fn sum(lhs: Value, rhs: Value) -> Expected {
    match (lhs, rhs) {
        (Value::Number(l), Value::Number(r)) => Expected::Number(FloatOp::Sum(l.bits, r.bits)),
        (Value::Boolean(b), Value::Number(n)) => Expected::Number(
            FloatOp::Sum(boolean_bits(b), n.bits),
        ),
        (Value::Number(n), Value::Boolean(b)) => Expected::Number(
            FloatOp::Sum(boolean_bits(b), n.bits),
        ),
        (Value::String(l), _) => Expected::Text(l@ + text_of(rhs)),
        _ => Expected::Nothing,
    }
}

/// `-`: for two numbers only.
pub open spec fn difference(lhs: Value, rhs: Value) -> Expected {
    match (lhs, rhs) {
        (Value::Number(l), Value::Number(r)) => Expected::Number(
            FloatOp::Difference(l.bits, r.bits),
        ),
        _ => Expected::Nothing,
    }
}

/// `*`: for two numbers, and for a string to the left of a number, which
/// repeats the string.
pub open spec fn product(lhs: Value, rhs: Value) -> Expected {
    match (lhs, rhs) {
        (Value::Number(l), Value::Number(r)) => Expected::Number(FloatOp::Product(l.bits, r.bits)),
        (Value::String(text), Value::Number(n)) => Expected::Repeat {
            text: text@,
            factor: n.bits,
        },
        _ => Expected::Nothing,
    }
}

/// `/`: for two numbers of which the right one is not zero.
pub open spec fn quotient(lhs: Value, rhs: Value) -> Expected {
    match (lhs, rhs) {
        (Value::Number(l), Value::Number(r)) => if is_zero(r.bits) {
            Expected::Nothing
        } else {
            Expected::Number(FloatOp::Quotient(l.bits, r.bits))
        },
        _ => Expected::Nothing,
    }
}

/// `%`: for two numbers of which the right one is not zero.
pub open spec fn remainder(lhs: Value, rhs: Value) -> Expected {
    match (lhs, rhs) {
        (Value::Number(l), Value::Number(r)) => if is_zero(r.bits) {
            Expected::Nothing
        } else {
            Expected::Number(FloatOp::Remainder(l.bits, r.bits))
        },
        _ => Expected::Nothing,
    }
}

/// Unary `-`: true and false change places, a number changes its sign, a
/// string is turned around.
pub open spec fn negation(value: Value) -> Expected {
    match value {
        Value::Boolean(b) => Expected::Truth(flipped(b)),
        Value::Number(n) => Expected::Number(FloatOp::Negation(n.bits)),
        Value::String(text) => Expected::Text(text@.reverse()),
        _ => Expected::Nothing,
    }
}

/// `&`: the conjunction of the truths of both values.
pub open spec fn conjunction(lhs: Value, rhs: Value) -> Expected {
    Expected::Truth(both(truth(lhs), truth(rhs)))
}

/// `|`: the disjunction of the truths of both values.
pub open spec fn disjunction(lhs: Value, rhs: Value) -> Expected {
    Expected::Truth(either(truth(lhs), truth(rhs)))
}

/// Every operator has an outcome for every pair of values, and the kinds of
/// the values alone decide whether it is the object without entries; only
/// division and remainder also look at the number to the right, which must
/// not be zero.
pub proof fn lemma_operators_by_kind(lhs: Value, rhs: Value)
    ensures
        sum(lhs, rhs) is Nothing <==> !(lhs is String || (lhs is Number && (rhs is Number
            || rhs is Boolean)) || (lhs is Boolean && rhs is Number)),
        difference(lhs, rhs) is Nothing <==> !(lhs is Number && rhs is Number),
        product(lhs, rhs) is Nothing <==> !((lhs is Number || lhs is String) && rhs is Number),
        quotient(lhs, rhs) is Nothing <==> !(lhs is Number && rhs is Number && !is_zero(
            rhs->Number_0.bits,
        )),
        remainder(lhs, rhs) is Nothing <==> !(lhs is Number && rhs is Number && !is_zero(
            rhs->Number_0.bits,
        )),
        negation(lhs) is Nothing <==> !(lhs is Boolean || lhs is Number || lhs is String),
        conjunction(lhs, rhs) is Truth,
        disjunction(lhs, rhs) is Truth,
{
}

/// `count` copies of a text, one after the other.
pub open spec fn copies(text: Seq<char>, count: nat) -> Seq<char>
    decreases count,
{
    if count == 0 {
        Seq::empty()
    } else {
        copies(text, (count - 1) as nat) + text
    }
}

/// A text repeated `whole` times and followed by its first `part`
/// characters; the whole of it turned around where `backwards` holds.
pub open spec fn repeated(text: Seq<char>, whole: nat, part: nat, backwards: bool) -> Seq<char> {
    let forwards = copies(text, whole) + text.subrange(0, part as int);
    if backwards {
        forwards.reverse()
    } else {
        forwards
    }
}

/// Builds the string that multiplying `text` by a number gives, from the
/// two counts that the host derives from the number: `whole` copies of the
/// text, then its first `part` characters, and all of it backwards where
/// `backwards` holds.
pub fn repeat(text: &str, whole: usize, part: usize, backwards: bool) -> (v: Value)
    requires
        part <= text@.len(),
    ensures
        v matches Value::String(s) && s@ == repeated(text@, whole as nat, part as nat, backwards),
{
    let chars = code_points(text);
    let mut forwards: Vec<char> = Vec::new();
    let mut count: usize = 0;
    while count < whole
        invariant
            chars@ == text@,
            count <= whole,
            forwards@ == copies(text@, count as nat),
        decreases whole - count,
    {
        let mut at: usize = 0;
        while at < chars.len()
            invariant
                chars@ == text@,
                at <= chars@.len(),
                forwards@ == copies(text@, count as nat) + chars@.subrange(0, at as int),
            decreases chars@.len() - at,
        {
            forwards.push(chars[at]);
            at = at + 1;
        }
        count = count + 1;
    }
    let mut at: usize = 0;
    while at < part
        invariant
            chars@ == text@,
            at <= part <= chars@.len(),
            forwards@ == copies(text@, whole as nat) + chars@.subrange(0, at as int),
        decreases part - at,
    {
        forwards.push(chars[at]);
        at = at + 1;
    }
    Value::String(string_of(&forwards, backwards))
}

impl Value {
    /// `+`.
    pub fn add(self, rhs: Value) -> (outcome: Outcome)
        ensures
            meets(outcome, sum(self, rhs)),
    {
        match (self, rhs) {
            (Value::Number(l), Value::Number(r)) => Outcome::Number(FloatOp::Sum(l.bits, r.bits)),
            (Value::Boolean(b), Value::Number(n)) => Outcome::Number(
                FloatOp::Sum(bits_of_boolean(b), n.bits),
            ),
            (Value::Number(n), Value::Boolean(b)) => Outcome::Number(
                FloatOp::Sum(bits_of_boolean(b), n.bits),
            ),
            (Value::String(l), other) => {
                let shown = other.to_string();
                Outcome::Value(Value::String(l.concat(shown.as_str())))
            },
            _ => Outcome::Value(Value::empty_object()),
        }
    }

    /// `-`.
    pub fn sub(self, rhs: Value) -> (outcome: Outcome)
        ensures
            meets(outcome, difference(self, rhs)),
    {
        match (self, rhs) {
            (Value::Number(l), Value::Number(r)) => Outcome::Number(
                FloatOp::Difference(l.bits, r.bits),
            ),
            _ => Outcome::Value(Value::empty_object()),
        }
    }

    /// `*`.
    pub fn mul(self, rhs: Value) -> (outcome: Outcome)
        ensures
            meets(outcome, product(self, rhs)),
    {
        match (self, rhs) {
            (Value::Number(l), Value::Number(r)) => Outcome::Number(
                FloatOp::Product(l.bits, r.bits),
            ),
            (Value::String(text), Value::Number(n)) => Outcome::Repeat {
                text,
                factor: n.bits,
                backwards: n.bits >= SIGN,
            },
            _ => Outcome::Value(Value::empty_object()),
        }
    }

    /// `/`.
    pub fn div(self, rhs: Value) -> (outcome: Outcome)
        ensures
            meets(outcome, quotient(self, rhs)),
    {
        match (self, rhs) {
            (Value::Number(l), Value::Number(r)) => if bits_zero(r.bits) {
                Outcome::Value(Value::empty_object())
            } else {
                Outcome::Number(FloatOp::Quotient(l.bits, r.bits))
            },
            _ => Outcome::Value(Value::empty_object()),
        }
    }

    /// `%`.
    pub fn rem(self, rhs: Value) -> (outcome: Outcome)
        ensures
            meets(outcome, remainder(self, rhs)),
    {
        match (self, rhs) {
            (Value::Number(l), Value::Number(r)) => if bits_zero(r.bits) {
                Outcome::Value(Value::empty_object())
            } else {
                Outcome::Number(FloatOp::Remainder(l.bits, r.bits))
            },
            _ => Outcome::Value(Value::empty_object()),
        }
    }

    /// Unary `-`.
    pub fn neg(self) -> (outcome: Outcome)
        ensures
            meets(outcome, negation(self)),
    {
        match self {
            Value::Boolean(b) => Outcome::Value(Value::Boolean(b.flip())),
            Value::Number(n) => Outcome::Number(FloatOp::Negation(n.bits)),
            Value::String(text) => {
                let chars = code_points(text.as_str());
                Outcome::Value(Value::String(string_of(&chars, true)))
            },
            _ => Outcome::Value(Value::empty_object()),
        }
    }

    /// `&`.
    pub fn bitand(self, rhs: Value) -> (outcome: Outcome)
        ensures
            meets(outcome, conjunction(self, rhs)),
    {
        Outcome::Value(Value::Boolean(self.bool().and(rhs.bool())))
    }

    /// `|`.
    pub fn bitor(self, rhs: Value) -> (outcome: Outcome)
        ensures
            meets(outcome, disjunction(self, rhs)),
    {
        Outcome::Value(Value::Boolean(self.bool().or(rhs.bool())))
    }
}

} // verus!
