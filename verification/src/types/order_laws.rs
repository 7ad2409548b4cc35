//! Laws of the order of values: where two values have an order, it is a
//! strict order, and it is the same from either side.

use std::cmp::Ordering;
use vstd::prelude::*;
use crate::types::number::is_nan;
use crate::types::order::{char_before, common, compare, same_key, text_order};
use crate::types::value::{same, Value};

verus! {

/// Two texts agree on as many characters from `from` on as `common` says,
/// and no further.
pub proof fn lemma_common(a: Seq<char>, b: Seq<char>, from: int)
    requires
        0 <= from <= a.len(),
        from <= b.len(),
    ensures
        from + common(a, b, from) <= a.len(),
        from + common(a, b, from) <= b.len(),
        common(a, b, from) >= 0,
        forall|i: int| from <= i < from + common(a, b, from) ==> a[i] == b[i],
        from + common(a, b, from) < a.len() && from + common(a, b, from) < b.len() ==> a[from
            + common(a, b, from)] != b[from + common(a, b, from)],
    decreases a.len() - from,
{
    if from < a.len() && from < b.len() && a[from] == b[from] {
        lemma_common(a, b, from + 1);
    }
}

/// A place up to which two texts agree, and at which they differ or one of
/// them ends, is where their common beginning ends.
pub proof fn lemma_common_is(a: Seq<char>, b: Seq<char>, shared: int)
    requires
        0 <= shared <= a.len(),
        shared <= b.len(),
        forall|i: int| 0 <= i < shared ==> a[i] == b[i],
        shared == a.len() || shared == b.len() || a[shared] != b[shared],
    ensures
        common(a, b, 0) == shared,
{
    lemma_common(a, b, 0);
}

/// Different code points are in order one way or the other, and the order
/// carries over.
pub proof fn lemma_char_before(x: char, y: char, z: char)
    ensures
        x != y ==> (char_before(x, y) <==> !char_before(y, x)),
        !char_before(x, x),
        char_before(x, y) && char_before(y, z) ==> char_before(x, z),
{
}

/// Comparing two texts the other way round gives the opposite, and texts
/// compare as equal only if they are the same.
pub proof fn lemma_text_order_flip(a: Seq<char>, b: Seq<char>)
    ensures
        text_order(a, b) == Ordering::Less <==> text_order(b, a) == Ordering::Greater,
        text_order(a, b) == Ordering::Equal <==> text_order(b, a) == Ordering::Equal,
        text_order(a, b) == Ordering::Equal <==> a == b,
{
    lemma_common(a, b, 0);
    lemma_common_is(b, a, common(a, b, 0));
    let shared = common(a, b, 0);
    if shared < a.len() && shared < b.len() {
        lemma_char_before(a[shared], b[shared], a[shared]);
    }
    if shared == a.len() && shared == b.len() {
        assert(a =~= b);
    }
}

/// The order of texts carries over: what is less than something less is
/// less.
pub proof fn lemma_text_order_transitive(a: Seq<char>, b: Seq<char>, c: Seq<char>)
    requires
        text_order(a, b) == Ordering::Less,
        text_order(b, c) == Ordering::Less,
    ensures
        text_order(a, c) == Ordering::Less,
{
    lemma_common(a, b, 0);
    lemma_common(b, c, 0);
    let first = common(a, b, 0);
    let second = common(b, c, 0);
    if first < second {
        lemma_common_is(a, c, first);
    } else if second < first {
        lemma_common_is(a, c, second);
    } else {
        lemma_common_is(a, c, first);
        if first < a.len() {
            lemma_char_before(a[first], b[first], c[first]);
        }
    }
}

/// Comparing two values the other way round gives the opposite, or again
/// no order.
pub proof fn lemma_compare_flip(a: Value, b: Value)
    ensures
        compare(a, b) == Some(Ordering::Less) <==> compare(b, a) == Some(Ordering::Greater),
        compare(a, b) == Some(Ordering::Equal) <==> compare(b, a) == Some(Ordering::Equal),
        compare(a, b) is None <==> compare(b, a) is None,
{
    match (a, b) {
        (Value::String(x), Value::String(y)) => {
            lemma_text_order_flip(x@, y@);
            lemma_text_order_flip(y@, x@);
        },
        _ => {},
    }
}

/// The order of values carries over: what is less than something less is
/// less.
pub proof fn lemma_compare_transitive(a: Value, b: Value, c: Value)
    requires
        compare(a, b) == Some(Ordering::Less),
        compare(b, c) == Some(Ordering::Less),
    ensures
        compare(a, c) == Some(Ordering::Less),
{
    match (a, b, c) {
        (Value::String(x), Value::String(y), Value::String(z)) => {
            lemma_text_order_transitive(x@, y@, z@);
        },
        _ => {},
    }
}

/// Being the same key carries over along the order: a key less than another
/// is less than every key that is the same as that one, and the other way
/// round.
pub proof fn lemma_same_key_keeps_order(a: Value, b: Value, c: Value)
    requires
        same_key(b, c),
    ensures
        compare(a, b) == compare(a, c),
        compare(b, a) == compare(c, a),
{
    match (b, c) {
        (Value::String(y), Value::String(z)) => {
            lemma_text_order_flip(y@, z@);
        },
        _ => {},
    }
}

/// Values that are the same compare the same with every value, from
/// either side.
pub proof fn lemma_same_compare(a: Value, b: Value, other: Value)
    requires
        same(a, b),
    ensures
        compare(a, other) == compare(b, other),
        compare(other, a) == compare(other, b),
{
}

/// Which values have an order: all of different kinds, and of the same kind
/// all booleans, strings and keywords, and numbers unless one is NaN.
pub proof fn lemma_compare_defined(a: Value, b: Value)
    ensures
        compare(a, b) is None <==> match (a, b) {
            (Value::Object(_), Value::Object(_)) => true,
            (Value::Function(_, _), Value::Function(_, _)) => true,
            (Value::Number(x), Value::Number(y)) => is_nan(x.bits) || is_nan(y.bits),
            _ => false,
        },
{
}

} // verus!
