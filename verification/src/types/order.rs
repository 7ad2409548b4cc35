//! How values compare.
//!
//! Values of different kinds compare by their kind alone. Within a kind,
//! booleans and keywords compare by the order of their variants, strings
//! by their code points, numbers as binary64 does. Two objects have no order
//! among themselves, nor have two functions, nor has NaN with any number:
//! for those pairs the comparison gives `None`, and they never count as the
//! same key of an object.

use std::cmp::Ordering;
use vstd::prelude::*;
use crate::types::boolean::boolean_rank;
use crate::types::keyword::keyword_rank;
use crate::types::number::{bits_eq, bits_lt, number_eq, number_lt};
use crate::types::value::{Entry, Value};

verus! {

/// Place of a value's kind among the kinds.
pub open spec fn kind_rank(v: Value) -> u8 {
    match v {
        Value::Boolean(_) => 0,
        Value::String(_) => 1,
        Value::Number(_) => 2,
        Value::Object(_) => 3,
        Value::Function(_, _) => 4,
        Value::Keyword(_) => 5,
    }
}

/// How two small numbers compare.
pub open spec fn rank_order(a: u8, b: u8) -> Ordering {
    if a < b {
        Ordering::Less
    } else if a == b {
        Ordering::Equal
    } else {
        Ordering::Greater
    }
}

/// How many characters two texts have in common from `from` on before they
/// differ or one of them ends.
pub open spec fn common(a: Seq<char>, b: Seq<char>, from: int) -> int
    decreases a.len() - from,
{
    if 0 <= from < a.len() && from < b.len() && a[from] == b[from] {
        1 + common(a, b, from + 1)
    } else {
        0
    }
}

/// Whether one code point comes before another.
pub open spec fn char_before(x: char, y: char) -> bool {
    (x as u32) < (y as u32)
}

/// How two texts compare, code point by code point: the first difference
/// decides, and a text that is the beginning of another comes first.
pub open spec fn text_order(a: Seq<char>, b: Seq<char>) -> Ordering {
    let shared = common(a, b, 0);
    if shared == a.len() && shared == b.len() {
        Ordering::Equal
    } else if shared == a.len() {
        Ordering::Less
    } else if shared == b.len() {
        Ordering::Greater
    } else if char_before(a[shared], b[shared]) {
        Ordering::Less
    } else {
        Ordering::Greater
    }
}

/// How two numbers compare; `None` where one of them is NaN.
pub open spec fn number_order(a: u64, b: u64) -> Option<Ordering> {
    if number_lt(a, b) {
        Some(Ordering::Less)
    } else if number_eq(a, b) {
        Some(Ordering::Equal)
    } else if number_lt(b, a) {
        Some(Ordering::Greater)
    } else {
        None
    }
}

/// How two values compare; `None` where they have no order.
pub open spec fn compare(a: Value, b: Value) -> Option<Ordering> {
    if kind_rank(a) != kind_rank(b) {
        Some(rank_order(kind_rank(a), kind_rank(b)))
    } else {
        match (a, b) {
            (Value::Boolean(x), Value::Boolean(y)) => Some(
                rank_order(boolean_rank(x), boolean_rank(y)),
            ),
            (Value::String(x), Value::String(y)) => Some(text_order(x@, y@)),
            (Value::Number(x), Value::Number(y)) => number_order(x.bits, y.bits),
            (Value::Keyword(x), Value::Keyword(y)) => Some(
                rank_order(keyword_rank(x), keyword_rank(y)),
            ),
            _ => None,
        }
    }
}

/// Whether two values are the same key of an object.
pub open spec fn same_key(a: Value, b: Value) -> bool {
    compare(a, b) == Some(Ordering::Equal)
}

/// Whether the first value comes before the second.
pub open spec fn less(a: Value, b: Value) -> bool {
    compare(a, b) == Some(Ordering::Less)
}

/// Whether two values have an order.
pub open spec fn comparable(a: Value, b: Value) -> bool {
    compare(a, b) is Some
}

/// The place of the first entry at or after `from` whose key is `key`; the
/// number of entries if there is none.
pub open spec fn place_of(entries: Seq<Entry>, key: Value, from: int) -> int
    decreases entries.len() - from,
{
    if from < 0 || from >= entries.len() {
        entries.len() as int
    } else if same_key(entries[from].key, key) {
        from
    } else {
        place_of(entries, key, from + 1)
    }
}

/// Whether some entry has the key.
pub open spec fn has_key(entries: Seq<Entry>, key: Value) -> bool {
    place_of(entries, key, 0) < entries.len()
}

/// How two small numbers compare.
fn order_ranks(a: u8, b: u8) -> (r: Ordering)
    ensures
        r == rank_order(a, b),
{
    if a < b {
        Ordering::Less
    } else if a == b {
        Ordering::Equal
    } else {
        Ordering::Greater
    }
}

/// Whether one code point comes before another.
fn comes_before(x: char, y: char) -> (r: bool)
    ensures
        r == char_before(x, y),
{
    (x as u32) < (y as u32)
}

/// How many characters two texts have in common at their beginning.
fn shared_start(left: &Vec<char>, right: &Vec<char>) -> (at: usize)
    ensures
        at == common(left@, right@, 0),
        at <= left@.len(),
        at <= right@.len(),
{
    let mut at: usize = 0;
    while at < left.len() && at < right.len() && left[at] == right[at]
        invariant
            at <= left@.len(),
            at <= right@.len(),
            common(left@, right@, 0) == at + common(left@, right@, at as int),
        decreases left@.len() - at,
    {
        at = at + 1;
    }
    at
}

/// How two texts compare, code point by code point.
pub fn order_texts(a: &str, b: &str) -> (r: Ordering)
    ensures
        r == text_order(a@, b@),
{
    let left = crate::chars::code_points(a);
    let right = crate::chars::code_points(b);
    let at = shared_start(&left, &right);
    if at == left.len() && at == right.len() {
        Ordering::Equal
    } else if at == left.len() {
        Ordering::Less
    } else if at == right.len() {
        Ordering::Greater
    } else if comes_before(left[at], right[at]) {
        Ordering::Less
    } else {
        Ordering::Greater
    }
}

/// How two numbers compare, by their bit patterns.
fn order_bits(a: u64, b: u64) -> (r: Option<Ordering>)
    ensures
        r == number_order(a, b),
{
    if bits_lt(a, b) {
        Some(Ordering::Less)
    } else if bits_eq(a, b) {
        Some(Ordering::Equal)
    } else if bits_lt(b, a) {
        Some(Ordering::Greater)
    } else {
        None
    }
}

impl Value {
    /// Place of the value's kind among the kinds.
    pub fn kind(&self) -> (r: u8)
        ensures
            r == kind_rank(*self),
    {
        match self {
            Value::Boolean(_) => 0,
            Value::String(_) => 1,
            Value::Number(_) => 2,
            Value::Object(_) => 3,
            Value::Function(_, _) => 4,
            Value::Keyword(_) => 5,
        }
    }

    /// Compares two values. Gives `None` for two objects, for two functions
    /// and for numbers of which one is NaN: those have no order.
    pub fn partial_cmp(&self, other: &Value) -> (r: Option<Ordering>)
        ensures
            r == compare(*self, *other),
    {
        let mine = self.kind();
        let theirs = other.kind();
        if mine != theirs {
            return Some(order_ranks(mine, theirs));
        }
        match (self, other) {
            (Value::Boolean(x), Value::Boolean(y)) => Some(order_ranks(x.rank(), y.rank())),
            (Value::String(x), Value::String(y)) => Some(order_texts(x.as_str(), y.as_str())),
            (Value::Number(x), Value::Number(y)) => order_bits(x.bits, y.bits),
            (Value::Keyword(x), Value::Keyword(y)) => Some(order_ranks(x.rank(), y.rank())),
            _ => None,
        }
    }

    /// Compares two values that have an order.
    pub fn cmp(&self, other: &Value) -> (r: Ordering)
        requires
            compare(*self, *other) is Some,
        ensures
            compare(*self, *other) == Some(r),
    {
        match self.partial_cmp(other) {
            Some(order) => order,
            None => Ordering::Equal,
        }
    }

    /// Whether the value comes before another.
    pub fn is_less(&self, other: &Value) -> (r: bool)
        ensures
            r == less(*self, *other),
    {
        match self.partial_cmp(other) {
            Some(Ordering::Less) => true,
            _ => false,
        }
    }

    /// Whether two values are the same key of an object.
    pub fn is_same_key(&self, other: &Value) -> (r: bool)
        ensures
            r == same_key(*self, *other),
    {
        match self.partial_cmp(other) {
            Some(Ordering::Equal) => true,
            _ => false,
        }
    }
}

/// Looks a key up among the entries of an object: the place of the first
/// entry with that key, if there is one.
pub fn find_key(entries: &Vec<Entry>, key: &Value) -> (found: Option<usize>)
    ensures
        match found {
            Some(place) => place == place_of(entries@, *key, 0) && place < entries@.len(),
            None => !has_key(entries@, *key),
        },
{
    let mut at: usize = 0;
    while at < entries.len()
        invariant
            at <= entries@.len(),
            place_of(entries@, *key, 0) == place_of(entries@, *key, at as int),
        decreases entries@.len() - at,
    {
        if entries[at].key.is_same_key(key) {
            return Some(at);
        }
        at = at + 1;
    }
    None
}

} // verus!
