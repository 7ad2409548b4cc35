//! Hashing of values.
//!
//! A value is hashed by its kind and then by what it holds: a boolean or a
//! keyword by its place, a string by its bytes, a number by its bit pattern,
//! an object by its keys and values in the order of its entries, a function
//! by its parameters and its body.

use std::collections::hash_map::DefaultHasher;
use std::hash::Hasher;
use vstd::bytes::{spec_u64_to_le_bytes, u64_to_le_bytes};
use vstd::prelude::*;
use crate::types::boolean::boolean_rank;
use crate::types::keyword::keyword_rank;
use crate::types::order::kind_rank;
use crate::types::value::{entries_size, lemma_entry_smaller, size, Entry, Value};

verus! {

/// What a text writes to a hasher: its bytes, and a byte that no text holds,
/// so that texts written one after the other stay apart.
pub open spec fn text_writes(text: Seq<char>) -> Seq<Seq<u8>> {
    seq![vstd::utf8::encode_utf8(text), seq![0xffu8]]
}

/// What the first `upto` names of a list write to a hasher.
pub open spec fn names_writes(names: Seq<String>, upto: nat) -> Seq<Seq<u8>>
    decreases upto,
{
    if upto == 0 || upto > names.len() {
        Seq::empty()
    } else {
        names_writes(names, (upto - 1) as nat) + text_writes(names[upto - 1]@)
    }
}

/// What a value writes to a hasher, one write after the other.
pub open spec fn writes(v: Value) -> Seq<Seq<u8>>
    decreases v, 0nat,
{
    seq![seq![kind_rank(v)]] + match v {
        Value::Boolean(b) => seq![seq![boolean_rank(b)]],
        Value::String(s) => text_writes(s@),
        Value::Number(n) => seq![spec_u64_to_le_bytes(n.bits)],
        Value::Object(entries) => entries_writes(entries@, entries@.len()),
        Value::Function(names, body) => names_writes(names@, names@.len()) + text_writes(
            body.text@,
        ),
        Value::Keyword(word) => seq![seq![keyword_rank(word)]],
    }
}

/// What the first `upto` entries of an object write to a hasher: each key,
/// then its value.
pub open spec fn entries_writes(entries: Seq<Entry>, upto: nat) -> Seq<Seq<u8>>
    decreases entries, upto,
{
    if upto == 0 || upto > entries.len() {
        Seq::empty()
    } else {
        entries_writes(entries, (upto - 1) as nat) + writes(entries[upto - 1].key) + writes(
            entries[upto - 1].value,
        )
    }
}

/// Writes one byte.
fn write_byte(state: &mut DefaultHasher, byte: u8)
    ensures
        final(state)@ == old(state)@.push(seq![byte]),
{
    let mut bytes: Vec<u8> = Vec::new();
    bytes.push(byte);
    state.write(bytes.as_slice());
}

/// Writes a text.
fn write_text(state: &mut DefaultHasher, text: &str)
    ensures
        final(state)@ == old(state)@ + text_writes(text@),
{
    state.write(text.as_bytes());
    write_byte(state, 0xff);
}

impl Value {
    /// Feeds the value to a hasher.
    pub fn hash(&self, state: &mut DefaultHasher)
        ensures
            final(state)@ == old(state)@ + writes(*self),
        decreases size(*self),
    {
        write_byte(state, self.kind());
        let ghost tagged = state@;
        match self {
            Value::Boolean(b) => {
                write_byte(state, b.rank());
            },
            Value::String(s) => {
                write_text(state, s.as_str());
            },
            Value::Number(n) => {
                let bytes = u64_to_le_bytes(n.bits);
                state.write(bytes.as_slice());
            },
            Value::Object(entries) => {
                let mut at: usize = 0;
                while at < entries.len()
                    invariant
                        at <= entries@.len(),
                        state@ == tagged + entries_writes(entries@, at as nat),
                        size(*self) == 1 + entries_size(entries@, entries@.len()),
                    decreases entries@.len() - at,
                {
                    proof {
                        lemma_entry_smaller(entries@, entries@.len(), at as int);
                    }
                    entries[at].key.hash(state);
                    entries[at].value.hash(state);
                    at = at + 1;
                }
            },
            Value::Function(names, body) => {
                let mut at: usize = 0;
                while at < names.len()
                    invariant
                        at <= names@.len(),
                        state@ == tagged + names_writes(names@, at as nat),
                    decreases names@.len() - at,
                {
                    write_text(state, names[at].as_str());
                    at = at + 1;
                }
                write_text(state, body.text.as_str());
            },
            Value::Keyword(word) => {
                write_byte(state, word.rank());
            },
        }
    }
}

} // verus!
