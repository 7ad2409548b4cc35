//! Objects: entries in the order of their keys.
//!
//! An object holds its entries in a vector. What makes the vector a mapping
//! is that its keys ascend strictly: then no key occurs twice, and the
//! entries stand in one order whatever the order in which they were put in.

use vstd::prelude::*;
use crate::types::order::{comparable, find_key, has_key, less, place_of, same_key};
use crate::types::order_laws::{
    lemma_compare_flip, lemma_compare_transitive, lemma_same_key_keeps_order,
};
use crate::types::value::{entries_size, lemma_entry_smaller, size, Entry, Value};

verus! {

/// Whether the keys of the entries ascend strictly.
pub open spec fn ascending(entries: Seq<Entry>) -> bool {
    forall|i: int, j: int|
        0 <= i < j < entries.len() ==> less(#[trigger] entries[i].key, #[trigger] entries[j].key)
}

/// Whether every object in a value, at any depth, has ascending keys.
pub open spec fn well_formed(v: Value) -> bool
    decreases v, 0nat,
{
    match v {
        Value::Object(entries) => ascending(entries@) && entries_well_formed(
            entries@,
            entries@.len(),
        ),
        _ => true,
    }
}

/// Whether the keys and values of the first `upto` entries are well formed.
pub open spec fn entries_well_formed(entries: Seq<Entry>, upto: nat) -> bool
    decreases entries, upto,
{
    if upto == 0 || upto > entries.len() {
        true
    } else {
        entries_well_formed(entries, (upto - 1) as nat) && well_formed(entries[upto - 1].key)
            && well_formed(entries[upto - 1].value)
    }
}

/// How many entries from `from` on have a key less than `key`, one after
/// the other.
pub open spec fn smaller_keys(entries: Seq<Entry>, key: Value, from: int) -> int
    decreases entries.len() - from,
{
    if 0 <= from < entries.len() && less(entries[from].key, key) {
        1 + smaller_keys(entries, key, from + 1)
    } else {
        0
    }
}

/// Where a key belongs among ascending entries: behind the keys that are
/// less.
pub open spec fn slot(entries: Seq<Entry>, key: Value) -> int {
    smaller_keys(entries, key, 0)
}

/// Whether a key can be put among the entries: where it meets a key that is
/// not less, the two have an order.
pub open spec fn fits(entries: Seq<Entry>, key: Value) -> bool {
    slot(entries, key) < entries.len() ==> comparable(entries[slot(entries, key)].key, key)
}

/// The entries with a value put under a key: in place of the value under
/// the same key where there is one, as a new entry in the key's slot
/// otherwise.
pub open spec fn with_entry(entries: Seq<Entry>, key: Value, value: Value) -> Seq<Entry> {
    let at = slot(entries, key);
    if at < entries.len() && same_key(entries[at].key, key) {
        entries.update(at, Entry { key: entries[at].key, value })
    } else {
        entries.insert(at, Entry { key, value })
    }
}

/// The keys before a key's slot are less than the key, and the slot lies
/// among the entries or right behind them.
pub proof fn lemma_slot(entries: Seq<Entry>, key: Value, from: int)
    requires
        0 <= from <= entries.len(),
    ensures
        0 <= smaller_keys(entries, key, from),
        from + smaller_keys(entries, key, from) <= entries.len(),
        forall|i: int|
            from <= i < from + smaller_keys(entries, key, from) ==> less(
                (#[trigger] entries[i]).key,
                key,
            ),
        from + smaller_keys(entries, key, from) < entries.len() ==> !less(
            entries[from + smaller_keys(entries, key, from)].key,
            key,
        ),
    decreases entries.len() - from,
{
    if from < entries.len() && less(entries[from].key, key) {
        lemma_slot(entries, key, from + 1);
    }
}

/// Putting a value under a key that fits keeps the keys ascending.
pub proof fn lemma_with_entry_ascending(entries: Seq<Entry>, key: Value, value: Value)
    requires
        ascending(entries),
        fits(entries, key),
    ensures
        ascending(with_entry(entries, key, value)),
{
    lemma_slot(entries, key, 0);
    let at = slot(entries, key);
    let after = with_entry(entries, key, value);
    if !(at < entries.len() && same_key(entries[at].key, key)) {
        assert forall|i: int, j: int| 0 <= i < j < after.len() implies less(
            #[trigger] after[i].key,
            #[trigger] after[j].key,
        ) by {
            if at < entries.len() {
                lemma_compare_flip(entries[at].key, key);
            }
            if i < at && j == at + 1 {
                lemma_compare_transitive(entries[i].key, key, entries[at].key);
            } else if i == at && j > at + 1 {
                lemma_compare_transitive(key, entries[at].key, entries[j - 1].key);
            }
        }
    }
}

/// Where each key is less than the next, each is less than all that follow.
pub proof fn lemma_chain(entries: Seq<Entry>, upto: int, i: int, j: int)
    requires
        0 <= i < j < upto <= entries.len(),
        forall|k: int| 0 < k < upto ==> less(entries[k - 1].key, #[trigger] entries[k].key),
    ensures
        less(entries[i].key, entries[j].key),
    decreases j - i,
{
    if i + 1 < j {
        lemma_chain(entries, upto, i, j - 1);
        lemma_compare_transitive(entries[i].key, entries[j - 1].key, entries[j].key);
    }
}

/// Entries that are not well formed stay so when more entries are looked
/// at.
pub proof fn lemma_stays_ill_formed(entries: Seq<Entry>, upto: nat, all: nat)
    requires
        upto <= all <= entries.len(),
        !entries_well_formed(entries, upto),
    ensures
        !entries_well_formed(entries, all),
    decreases all - upto,
{
    if upto < all {
        lemma_stays_ill_formed(entries, upto, (all - 1) as nat);
    }
}

/// Among ascending entries no key occurs twice.
pub proof fn lemma_keys_are_unique(entries: Seq<Entry>, i: int, j: int)
    requires
        ascending(entries),
        0 <= i < entries.len(),
        0 <= j < entries.len(),
        same_key(entries[i].key, entries[j].key),
    ensures
        i == j,
{
    if j < i {
        lemma_compare_flip(entries[j].key, entries[i].key);
    }
}

/// Among ascending entries a key is found in its slot or nowhere.
pub proof fn lemma_found_in_slot(entries: Seq<Entry>, key: Value)
    requires
        ascending(entries),
    ensures
        has_key(entries, key) <==> slot(entries, key) < entries.len() && same_key(
            entries[slot(entries, key)].key,
            key,
        ),
        has_key(entries, key) ==> place_of(entries, key, 0) == slot(entries, key),
{
    lemma_slot(entries, key, 0);
    lemma_search(entries, key, 0);
    let at = slot(entries, key);
    let place = place_of(entries, key, 0);
    if at < place < entries.len() {
        lemma_same_key_keeps_order(entries[at].key, entries[place].key, key);
    }
}

/// What a key search finds: the first entry with the key, at or behind
/// where the search starts.
pub proof fn lemma_search(entries: Seq<Entry>, key: Value, from: int)
    requires
        0 <= from <= entries.len(),
    ensures
        from <= place_of(entries, key, from) <= entries.len(),
        place_of(entries, key, from) < entries.len() ==> same_key(
            entries[place_of(entries, key, from)].key,
            key,
        ),
        forall|i: int|
            from <= i < place_of(entries, key, from) ==> !same_key(
                (#[trigger] entries[i]).key,
                key,
            ),
    decreases entries.len() - from,
{
    if from < entries.len() && !same_key(entries[from].key, key) {
        lemma_search(entries, key, from + 1);
    }
}

impl Value {
    /// Whether every object in the value, at any depth, has ascending keys.
    pub fn is_well_formed(&self) -> (r: bool)
        ensures
            r == well_formed(*self),
        decreases size(*self),
    {
        match self {
            Value::Object(entries) => {
                let mut at: usize = 0;
                while at < entries.len()
                    invariant
                        at <= entries@.len(),
                        size(*self) == 1 + entries_size(entries@, entries@.len()),
                        well_formed(*self) == (ascending(entries@) && entries_well_formed(
                            entries@,
                            entries@.len(),
                        )),
                        entries_well_formed(entries@, at as nat),
                        forall|k: int|
                            0 < k < at ==> less(entries@[k - 1].key, #[trigger] entries@[k].key),
                    decreases entries@.len() - at,
                {
                    proof {
                        lemma_entry_smaller(entries@, entries@.len(), at as int);
                    }
                    if at > 0 && !entries[at - 1].key.is_less(&entries[at].key) {
                        assert(!ascending(entries@));
                        return false;
                    }
                    if !entries[at].key.is_well_formed() || !entries[at].value.is_well_formed() {
                        proof {
                            lemma_stays_ill_formed(entries@, (at + 1) as nat, entries@.len());
                        }
                        return false;
                    }
                    at = at + 1;
                }
                proof {
                    assert forall|i: int, j: int| 0 <= i < j < entries@.len() implies less(
                        #[trigger] entries@[i].key,
                        #[trigger] entries@[j].key,
                    ) by {
                        lemma_chain(entries@, entries@.len() as int, i, j);
                    }
                }
                true
            },
            _ => true,
        }
    }
}

/// The place where a key belongs among the entries.
pub fn slot_of(entries: &Vec<Entry>, key: &Value) -> (at: usize)
    ensures
        at == slot(entries@, *key),
        at <= entries@.len(),
{
    let mut at: usize = 0;
    while at < entries.len()
        invariant
            at <= entries@.len(),
            slot(entries@, *key) == at + smaller_keys(entries@, *key, at as int),
        decreases entries@.len() - at,
    {
        if !entries[at].key.is_less(key) {
            return at;
        }
        at = at + 1;
    }
    at
}

/// The value that the entries hold under a key, if they hold one.
pub fn get<'a>(entries: &'a Vec<Entry>, key: &Value) -> (found: Option<&'a Value>)
    ensures
        match found {
            Some(value) => has_key(entries@, *key) && *value == entries@[place_of(
                entries@,
                *key,
                0,
            )].value,
            None => !has_key(entries@, *key),
        },
{
    match find_key(entries, key) {
        Some(place) => Some(&entries[place].value),
        None => None,
    }
}

/// Puts a value under a key. Where the entries hold the key already, the
/// value takes the place of the one they held, which is handed back; the key
/// that was there stays. Otherwise a new entry goes where the key belongs.
pub fn insert(entries: &mut Vec<Entry>, key: Value, value: Value) -> (replaced: Option<Value>)
    requires
        ascending(old(entries)@),
        fits(old(entries)@, key),
    ensures
        final(entries)@ == with_entry(old(entries)@, key, value),
        ascending(final(entries)@),
        match replaced {
            Some(previous) => has_key(old(entries)@, key) && previous == old(entries)@[place_of(
                old(entries)@,
                key,
                0,
            )].value,
            None => !has_key(old(entries)@, key),
        },
{
    proof {
        lemma_with_entry_ascending(entries@, key, value);
        lemma_found_in_slot(entries@, key);
    }
    let at = slot_of(entries, &key);
    if at < entries.len() && entries[at].key.is_same_key(&key) {
        let previous = entries.remove(at);
        entries.insert(at, Entry { key: previous.key, value });
        Some(previous.value)
    } else {
        entries.insert(at, Entry { key, value });
        None
    }
}

} // verus!
