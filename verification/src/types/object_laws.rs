//! Laws of objects: what an object holds does not depend on the order in
//! which its entries were put in.

use vstd::prelude::*;
use crate::types::object::{lemma_slot, slot, with_entry};
use crate::types::order::{less, same_key};
use crate::types::order_laws::{
    lemma_compare_flip, lemma_compare_transitive, lemma_same_key_keeps_order,
};
use crate::types::value::{Entry, Value};

verus! {

/// A place before which all keys are less than a key, and at which the key
/// is not less, is the key's slot.
pub proof fn lemma_slot_is(entries: Seq<Entry>, key: Value, at: int)
    requires
        0 <= at <= entries.len(),
        forall|i: int| 0 <= i < at ==> less((#[trigger] entries[i]).key, key),
        at < entries.len() ==> !less(entries[at].key, key),
    ensures
        slot(entries, key) == at,
{
    lemma_slot(entries, key, 0);
    let found = slot(entries, key);
    if found < at {
        assert(less(entries[found].key, key));
    } else if found > at {
        assert(less(entries[at].key, key));
    }
}

/// Whether the entries hold a key.
pub open spec fn holds(entries: Seq<Entry>, key: Value) -> bool {
    slot(entries, key) < entries.len() && same_key(entries[slot(entries, key)].key, key)
}

/// The slot of a smaller key is not behind the slot of a larger one, and
/// before it if the entries hold the smaller key.
proof fn lemma_slots_in_order(entries: Seq<Entry>, small: Value, large: Value)
    requires
        less(small, large),
    ensures
        slot(entries, small) <= slot(entries, large),
        holds(entries, small) ==> slot(entries, small) < slot(entries, large),
{
    lemma_slot(entries, small, 0);
    lemma_slot(entries, large, 0);
    let low = slot(entries, small);
    let high = slot(entries, large);
    if high < low {
        assert(less(entries[high].key, small));
        lemma_compare_transitive(entries[high].key, small, large);
    }
    if holds(entries, small) {
        lemma_same_key_keeps_order(large, entries[low].key, small);
        lemma_compare_flip(large, entries[low].key);
        lemma_compare_flip(large, small);
    }
}

/// Where a larger key belongs once a value was put under a smaller key: in
/// its old slot if the smaller key was there already, one place further
/// otherwise.
proof fn lemma_large_after_small(entries: Seq<Entry>, small: Value, first: Value, large: Value)
    requires
        less(small, large),
    ensures
        slot(with_entry(entries, small, first), large) == if holds(entries, small) {
            slot(entries, large)
        } else {
            slot(entries, large) + 1
        },
{
    lemma_slot(entries, small, 0);
    lemma_slot(entries, large, 0);
    lemma_slots_in_order(entries, small, large);
    let low = slot(entries, small);
    let high = slot(entries, large);
    let after = with_entry(entries, small, first);
    if holds(entries, small) {
        assert(after == entries.update(low, Entry { key: entries[low].key, value: first }));
        assert forall|i: int| 0 <= i < high implies less((#[trigger] after[i]).key, large) by {
            assert(after[i].key == entries[i].key);
            assert(less(entries[i].key, large));
        }
        if high < after.len() {
            assert(after[high].key == entries[high].key);
        }
        lemma_slot_is(after, large, high);
    } else {
        assert(after == entries.insert(low, Entry { key: small, value: first }));
        assert forall|i: int| 0 <= i < high + 1 implies less((#[trigger] after[i]).key, large) by {
            if i < low {
                assert(after[i] == entries[i]);
                assert(less(entries[i].key, large));
            } else if i > low {
                assert(after[i] == entries[i - 1]);
                assert(less(entries[i - 1].key, large));
            }
        }
        if high + 1 < after.len() {
            assert(after[high + 1] == entries[high]);
        }
        lemma_slot_is(after, large, high + 1);
    }
}

/// Where a smaller key belongs once a value was put under a larger key: in
/// its old slot.
proof fn lemma_small_after_large(entries: Seq<Entry>, small: Value, large: Value, second: Value)
    requires
        less(small, large),
    ensures
        slot(with_entry(entries, large, second), small) == slot(entries, small),
{
    lemma_slot(entries, small, 0);
    lemma_slot(entries, large, 0);
    lemma_slots_in_order(entries, small, large);
    lemma_compare_flip(small, large);
    let low = slot(entries, small);
    let high = slot(entries, large);
    let after = with_entry(entries, large, second);
    if holds(entries, large) {
        assert(after == entries.update(high, Entry { key: entries[high].key, value: second }));
        assert forall|i: int| 0 <= i < low implies less((#[trigger] after[i]).key, small) by {
            assert(after[i].key == entries[i].key);
            assert(less(entries[i].key, small));
        }
        if low < after.len() {
            assert(after[low].key == entries[low].key);
        }
    } else {
        assert(after == entries.insert(high, Entry { key: large, value: second }));
        assert forall|i: int| 0 <= i < low implies less((#[trigger] after[i]).key, small) by {
            assert(after[i] == entries[i]);
            assert(less(entries[i].key, small));
        }
        if low < high {
            assert(after[low] == entries[low]);
        } else {
            assert(after[low].key == large);
        }
    }
    lemma_slot_is(after, small, low);
}

/// Putting two values under two keys, the smaller key first or last, gives
/// the same entries.
proof fn lemma_smaller_first_or_last(
    entries: Seq<Entry>,
    small: Value,
    first: Value,
    large: Value,
    second: Value,
)
    requires
        less(small, large),
    ensures
        with_entry(with_entry(entries, small, first), large, second) == with_entry(
            with_entry(entries, large, second),
            small,
            first,
        ),
{
    lemma_slots_in_order(entries, small, large);
    lemma_large_after_small(entries, small, first, large);
    lemma_small_after_large(entries, small, large, second);
    lemma_compare_flip(small, large);
    lemma_slot(entries, small, 0);
    lemma_slot(entries, large, 0);
    let low = slot(entries, small);
    let high = slot(entries, large);
    let new_small = Entry { key: small, value: first };
    let new_large = Entry { key: large, value: second };
    let with_small = with_entry(entries, small, first);
    let with_large = with_entry(entries, large, second);
    if holds(entries, small) {
        let kept_small = Entry { key: entries[low].key, value: first };
        assert(with_small == entries.update(low, kept_small));
        assert(with_small[high] == entries[high] || high >= entries.len());
        if holds(entries, large) {
            let kept_large = Entry { key: entries[high].key, value: second };
            assert(with_large == entries.update(high, kept_large));
            assert(with_large[low] == entries[low]);
            assert(with_entry(with_small, large, second) == with_small.update(high, kept_large));
            assert(with_entry(with_large, small, first) == with_large.update(low, kept_small));
            assert(with_small.update(high, kept_large) =~= with_large.update(low, kept_small));
        } else {
            assert(with_large == entries.insert(high, new_large));
            assert(with_large[low] == entries[low]);
            assert(with_entry(with_small, large, second) == with_small.insert(high, new_large));
            assert(with_entry(with_large, small, first) == with_large.update(low, kept_small));
            assert(with_small.insert(high, new_large) =~= with_large.update(low, kept_small));
        }
    } else {
        assert(with_small == entries.insert(low, new_small));
        if high < entries.len() {
            assert(with_small[high + 1] == entries[high]);
        }
        if holds(entries, large) {
            let kept_large = Entry { key: entries[high].key, value: second };
            assert(with_large == entries.update(high, kept_large));
            assert(with_large[low].key == entries[low].key);
            assert(with_entry(with_small, large, second) == with_small.update(
                high + 1,
                kept_large,
            ));
            assert(with_entry(with_large, small, first) == with_large.insert(low, new_small));
            assert(with_small.update(high + 1, kept_large) =~= with_large.insert(low, new_small));
        } else {
            assert(with_large == entries.insert(high, new_large));
            if low < high {
                assert(with_large[low] == entries[low]);
            } else {
                assert(with_large[low] == new_large);
            }
            assert(with_entry(with_small, large, second) == with_small.insert(
                high + 1,
                new_large,
            ));
            assert(with_entry(with_large, small, first) == with_large.insert(low, new_small));
            assert(with_small.insert(high + 1, new_large) =~= with_large.insert(low, new_small));
        }
    }
}

/// What entries hold after two values were put under two keys of which one
/// is less than the other does not depend on which was put in first.
pub proof fn lemma_insertion_order(
    entries: Seq<Entry>,
    one: Value,
    first: Value,
    other: Value,
    second: Value,
)
    requires
        less(one, other) || less(other, one),
    ensures
        with_entry(with_entry(entries, one, first), other, second) == with_entry(
            with_entry(entries, other, second),
            one,
            first,
        ),
{
    if less(one, other) {
        lemma_smaller_first_or_last(entries, one, first, other, second);
    } else {
        lemma_smaller_first_or_last(entries, other, second, one, first);
    }
}

} // verus!
