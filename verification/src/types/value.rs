//! The runtime value and its truth.

use vstd::prelude::*;
use crate::types::boolean::Boolean;
use crate::types::keyword::Keyword;
use crate::types::number::{number_truth, Number};

verus! {

/// The body of a function. The value model never looks inside: it keeps the
/// body's text, compares it, hashes it and shows it.
#[derive(Clone, Debug, PartialEq, Eq)]
pub struct Syntax {
    pub text: String,
}

/// One entry of an object: a key, and the value that the entry points to, as
/// it was when the object was handed to this library.
#[derive(Debug, PartialEq, Eq)]
pub struct Entry {
    pub key: Value,
    pub value: Value,
}

/// A runtime value. The order of the variants is the order in which values
/// of different kinds compare.
#[derive(Debug, PartialEq, Eq)]
pub enum Value {
    Boolean(Boolean),
    String(String),
    Number(Number),
    /// The entries of an object, in the order of their keys.
    Object(Vec<Entry>),
    /// The names of the parameters, and the body.
    Function(Vec<String>, Syntax),
    Keyword(Keyword),
}

/// How much a value holds: one for the value itself, and the sizes of an
/// object's keys and values.
pub open spec fn size(v: Value) -> nat
    decreases v, 0nat,
{
    match v {
        Value::Object(entries) => 1 + entries_size(entries@, entries@.len()),
        _ => 1,
    }
}

/// The sizes of the keys and values of the first `upto` entries together.
pub open spec fn entries_size(entries: Seq<Entry>, upto: nat) -> nat
    decreases entries, upto,
{
    if upto == 0 || upto > entries.len() {
        0
    } else {
        entries_size(entries, (upto - 1) as nat) + size(entries[upto - 1].key) + size(
            entries[upto - 1].value,
        )
    }
}

/// An entry's key and value are smaller than the entries together.
pub proof fn lemma_entry_smaller(entries: Seq<Entry>, upto: nat, i: int)
    requires
        0 <= i < upto <= entries.len(),
    ensures
        size(entries[i].key) + size(entries[i].value) <= entries_size(entries, upto),
    decreases upto,
{
    if i < upto - 1 {
        lemma_entry_smaller(entries, (upto - 1) as nat, i);
    }
}

/// Whether two lists of names hold the same names in the same order.
pub open spec fn same_names(a: Seq<String>, b: Seq<String>) -> bool {
    a.len() == b.len() && forall|i: int| 0 <= i < a.len() ==> (#[trigger] a[i])@ == b[i]@
}

/// Whether two values are the same: of one kind, and holding the same
/// truth, text, number, keyword, parameters and body, or the same keys and
/// values entry by entry.
pub open spec fn same(a: Value, b: Value) -> bool
    decreases a, 0nat,
{
    match (a, b) {
        (Value::Boolean(x), Value::Boolean(y)) => x == y,
        (Value::String(x), Value::String(y)) => x@ == y@,
        (Value::Number(x), Value::Number(y)) => x.bits == y.bits && x.text@ == y.text@,
        (Value::Object(x), Value::Object(y)) => x@.len() == y@.len() && same_entries(
            x@,
            y@,
            x@.len(),
        ),
        (Value::Function(names, body), Value::Function(others, other)) => same_names(
            names@,
            others@,
        ) && body.text@ == other.text@,
        (Value::Keyword(x), Value::Keyword(y)) => x == y,
        _ => false,
    }
}

/// Whether the first `upto` entries of two objects are the same, key by
/// key and value by value.
pub open spec fn same_entries(a: Seq<Entry>, b: Seq<Entry>, upto: nat) -> bool
    decreases a, upto,
{
    if upto == 0 || upto > a.len() || upto > b.len() {
        true
    } else {
        same_entries(a, b, (upto - 1) as nat) && same(a[upto - 1].key, b[upto - 1].key) && same(
            a[upto - 1].value,
            b[upto - 1].value,
        )
    }
}

/// Truth of a value: a boolean is its own truth; a number is true from 1
/// upwards, false from 0 downwards and undecided otherwise; a string or an
/// object is false when empty and true otherwise; functions and keywords are
/// undecided.
pub open spec fn truth(v: Value) -> Boolean {
    match v {
        Value::Boolean(b) => b,
        Value::Number(n) => number_truth(n.bits),
        Value::String(s) => if s@.len() == 0 {
            Boolean::False
        } else {
            Boolean::True
        },
        Value::Object(entries) => if entries@.len() == 0 {
            Boolean::False
        } else {
            Boolean::True
        },
        Value::Function(_, _) => Boolean::Maybe,
        Value::Keyword(_) => Boolean::Maybe,
    }
}

/// Every value has a truth, whatever its kind: a string or an object is
/// never undecided, a function or a keyword always is.
pub proof fn lemma_truth_of_every_kind(v: Value)
    ensures
        truth(v) == Boolean::True || truth(v) == Boolean::False || truth(v) == Boolean::Maybe,
        v is String || v is Object ==> truth(v) != Boolean::Maybe,
        v is Function || v is Keyword ==> truth(v) == Boolean::Maybe,
        v matches Value::Boolean(b) ==> truth(v) == b,
{
}

/// Values that are the same have the same truth.
pub proof fn lemma_same_truth(a: Value, b: Value)
    requires
        same(a, b),
    ensures
        truth(a) == truth(b),
{
}

/// Whether a value is the object without entries.
pub open spec fn is_empty_object(v: Value) -> bool {
    v matches Value::Object(entries) && entries@.len() == 0
}

impl Value {
    /// Truth of the value, for every value.
    pub fn bool(&self) -> (r: Boolean)
        ensures
            r == truth(*self),
    {
        match self {
            Value::Boolean(b) => *b,
            Value::Number(n) => n.truth(),
            Value::String(s) => if s.as_str().is_empty() {
                Boolean::False
            } else {
                Boolean::True
            },
            Value::Object(entries) => if entries.len() == 0 {
                Boolean::False
            } else {
                Boolean::True
            },
            _ => Boolean::Maybe,
        }
    }

    /// The object without entries: what every operator gives where it is not
    /// defined.
    pub fn empty_object() -> (v: Value)
        ensures
            is_empty_object(v),
    {
        Value::Object(Vec::new())
    }
}

impl Clone for Value {
    /// A copy of the value.
    fn clone(&self) -> (copy: Value)
        ensures
            same(*self, copy),
        decreases size(*self),
    {
        match self {
            Value::Boolean(b) => Value::Boolean(*b),
            Value::String(s) => Value::String(s.clone()),
            Value::Number(n) => Value::Number(n.duplicate()),
            Value::Object(entries) => {
                let mut copies: Vec<Entry> = Vec::new();
                let mut at: usize = 0;
                while at < entries.len()
                    invariant
                        at <= entries@.len(),
                        copies@.len() == at,
                        same_entries(entries@, copies@, at as nat),
                        size(*self) == 1 + entries_size(entries@, entries@.len()),
                    decreases entries@.len() - at,
                {
                    proof {
                        lemma_entry_smaller(entries@, entries@.len(), at as int);
                    }
                    let key = entries[at].key.clone();
                    let value = entries[at].value.clone();
                    proof {
                        lemma_same_entries_grow(entries@, copies@, Entry { key, value }, at as nat);
                    }
                    copies.push(Entry { key, value });
                    at = at + 1;
                }
                Value::Object(copies)
            },
            Value::Function(names, body) => {
                let mut copies: Vec<String> = Vec::new();
                let mut at: usize = 0;
                while at < names.len()
                    invariant
                        at <= names@.len(),
                        copies@.len() == at,
                        forall|i: int| 0 <= i < at ==> (#[trigger] names@[i])@ == copies@[i]@,
                    decreases names@.len() - at,
                {
                    copies.push(names[at].clone());
                    at = at + 1;
                }
                Value::Function(copies, Syntax { text: body.text.clone() })
            },
            Value::Keyword(word) => Value::Keyword(*word),
        }
    }
}

impl Clone for Entry {
    /// A copy of the entry.
    fn clone(&self) -> (copy: Entry)
        ensures
            same(self.key, copy.key),
            same(self.value, copy.value),
    {
        Entry { key: self.key.clone(), value: self.value.clone() }
    }
}

/// Entries that are the same stay so when one more is put behind those of
/// the second list.
pub proof fn lemma_same_entries_grow(a: Seq<Entry>, b: Seq<Entry>, more: Entry, upto: nat)
    requires
        upto <= a.len(),
        upto <= b.len(),
        same_entries(a, b, upto),
    ensures
        same_entries(a, b.push(more), upto),
    decreases upto,
{
    if upto > 0 {
        lemma_same_entries_grow(a, b, more, (upto - 1) as nat);
    }
}

impl Default for Value {
    /// The object without entries.
    fn default() -> (v: Value)
        ensures
            is_empty_object(v),
    {
        Value::Object(Vec::new())
    }
}

impl From<bool> for Value {
    fn from(value: bool) -> (v: Value)
        ensures
            v == Value::Boolean(
                if value {
                    Boolean::True
                } else {
                    Boolean::False
                },
            ),
    {
        if value {
            Value::Boolean(Boolean::True)
        } else {
            Value::Boolean(Boolean::False)
        }
    }
}

impl vstd::std_specs::convert::FromSpecImpl<bool> for Value {
    open spec fn obeys_from_spec() -> bool {
        true
    }

    open spec fn from_spec(value: bool) -> Value {
        Value::Boolean(
            if value {
                Boolean::True
            } else {
                Boolean::False
            },
        )
    }
}

impl From<&str> for Value {
    fn from(value: &str) -> (v: Value)
        ensures
            v matches Value::String(text) && text@ == value@,
    {
        Value::String(value.to_owned())
    }
}

impl vstd::std_specs::convert::FromSpecImpl<&str> for Value {
    open spec fn obeys_from_spec() -> bool {
        false
    }

    open spec fn from_spec(value: &str) -> Value {
        arbitrary()
    }
}

impl From<String> for Value {
    fn from(value: String) -> (v: Value)
        ensures
            v == Value::String(value),
    {
        Value::String(value)
    }
}

impl vstd::std_specs::convert::FromSpecImpl<String> for Value {
    open spec fn obeys_from_spec() -> bool {
        true
    }

    open spec fn from_spec(value: String) -> Value {
        Value::String(value)
    }
}

impl From<Number> for Value {
    fn from(value: Number) -> (v: Value)
        ensures
            v == Value::Number(value),
    {
        Value::Number(value)
    }
}

impl vstd::std_specs::convert::FromSpecImpl<Number> for Value {
    open spec fn obeys_from_spec() -> bool {
        true
    }

    open spec fn from_spec(value: Number) -> Value {
        Value::Number(value)
    }
}

impl From<Keyword> for Value {
    fn from(value: Keyword) -> (v: Value)
        ensures
            v == Value::Keyword(value),
    {
        Value::Keyword(value)
    }
}

impl vstd::std_specs::convert::FromSpecImpl<Keyword> for Value {
    open spec fn obeys_from_spec() -> bool {
        true
    }

    open spec fn from_spec(value: Keyword) -> Value {
        Value::Keyword(value)
    }
}

impl From<Boolean> for Value {
    fn from(value: Boolean) -> (v: Value)
        ensures
            v == Value::Boolean(value),
    {
        Value::Boolean(value)
    }
}

impl vstd::std_specs::convert::FromSpecImpl<Boolean> for Value {
    open spec fn obeys_from_spec() -> bool {
        true
    }

    open spec fn from_spec(value: Boolean) -> Value {
        Value::Boolean(value)
    }
}

} // verus!
