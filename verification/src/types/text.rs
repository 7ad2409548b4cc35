//! How values are written.
//!
//! A boolean or a keyword is its word, a number the text it came with, a
//! string its quoted form. An object is `object`, followed by its entries in
//! braces where it has any: `object { key: "value", key: "value" }`, each
//! value quoted. A function is the list of its parameters, each quoted, an
//! arrow and the body: `["a", "b"] -> body`.

use vstd::prelude::*;
use vstd::string::StringExecFns;
use crate::chars::{quote, quoted};
use crate::types::boolean::boolean_text;
use crate::types::keyword::keyword_text;
use crate::types::value::{
    entries_size, lemma_entry_smaller, same, same_entries, same_names, size, Entry, Value,
};

verus! {

/// The first `upto` names of a list, each quoted, with `, ` between them.
pub open spec fn listed(names: Seq<String>, upto: nat) -> Seq<char>
    decreases upto,
{
    if upto == 0 || upto > names.len() {
        Seq::empty()
    } else {
        let separator = if upto == 1 {
            Seq::empty()
        } else {
            ", "@
        };
        listed(names, (upto - 1) as nat) + separator + quoted(names[upto - 1]@)
    }
}

/// How a value is written.
pub open spec fn text_of(v: Value) -> Seq<char>
    decreases v, 0nat,
{
    match v {
        Value::Boolean(b) => boolean_text(b),
        Value::String(s) => quoted(s@),
        Value::Number(n) => n.text@,
        Value::Object(entries) => {
            let closing = if entries@.len() == 0 {
                Seq::empty()
            } else {
                " }"@
            };
            "object"@ + fields_text(entries@, entries@.len()) + closing
        },
        Value::Function(names, body) => "["@ + listed(names@, names@.len()) + "]"@ + " -> "@
            + body.text@,
        Value::Keyword(word) => keyword_text(word),
    }
}

/// How the first `upto` entries of an object are written: ` { ` before the
/// first, `, ` before each other one, then the key, `: ` and the quoted
/// value.
pub open spec fn fields_text(entries: Seq<Entry>, upto: nat) -> Seq<char>
    decreases entries, upto,
{
    if upto == 0 || upto > entries.len() {
        Seq::empty()
    } else {
        let separator = if upto == 1 {
            " { "@
        } else {
            ", "@
        };
        fields_text(entries, (upto - 1) as nat) + separator + text_of(entries[upto - 1].key)
            + ": "@ + quoted(text_of(entries[upto - 1].value))
    }
}

/// Names that are the same are listed the same.
pub proof fn lemma_same_listed(a: Seq<String>, b: Seq<String>, upto: nat)
    requires
        same_names(a, b),
    ensures
        listed(a, upto) == listed(b, upto),
    decreases upto,
{
    if upto > 0 && upto <= a.len() {
        lemma_same_listed(a, b, (upto - 1) as nat);
    }
}

/// Values that are the same are written the same.
pub proof fn lemma_same_text(a: Value, b: Value)
    requires
        same(a, b),
    ensures
        text_of(a) == text_of(b),
    decreases size(a), 0nat,
{
    match (a, b) {
        (Value::Object(x), Value::Object(y)) => {
            lemma_same_fields(x@, y@, x@.len());
        },
        (Value::Function(names, _), Value::Function(others, _)) => {
            lemma_same_listed(names@, others@, names@.len());
        },
        _ => {},
    }
}

/// Entries that are the same are written the same.
pub proof fn lemma_same_fields(a: Seq<Entry>, b: Seq<Entry>, upto: nat)
    requires
        upto <= a.len(),
        upto <= b.len(),
        same_entries(a, b, upto),
    ensures
        fields_text(a, upto) == fields_text(b, upto),
    decreases entries_size(a, a.len()), upto,
{
    if upto > 0 {
        lemma_entry_smaller(a, a.len(), upto - 1);
        lemma_same_fields(a, b, (upto - 1) as nat);
        lemma_same_text(a[upto - 1].key, b[upto - 1].key);
        lemma_same_text(a[upto - 1].value, b[upto - 1].value);
    }
}

/// Writes a list of names: each quoted, `, ` between them.
fn list_names(names: &Vec<String>) -> (text: String)
    ensures
        text@ == listed(names@, names@.len()),
{
    let mut text = String::new();
    let mut at: usize = 0;
    while at < names.len()
        invariant
            at <= names@.len(),
            text@ == listed(names@, at as nat),
        decreases names@.len() - at,
    {
        if at > 0 {
            text.append(", ");
        }
        let name = quote(names[at].as_str());
        text.append(name.as_str());
        at = at + 1;
        assert(text@ =~= listed(names@, at as nat));
    }
    text
}

impl Value {
    /// Writes the value.
    pub fn to_string(&self) -> (text: String)
        ensures
            text@ == text_of(*self),
        decreases size(*self),
    {
        match self {
            Value::Boolean(b) => b.to_string(),
            Value::String(s) => quote(s.as_str()),
            Value::Number(n) => n.text.clone(),
            Value::Object(entries) => {
                let mut text = "object".to_owned();
                let mut at: usize = 0;
                while at < entries.len()
                    invariant
                        at <= entries@.len(),
                        text@ == "object"@ + fields_text(entries@, at as nat),
                        size(*self) == 1 + entries_size(
                            entries@,
                            entries@.len(),
                        ),
                    decreases entries@.len() - at,
                {
                    proof {
                        lemma_entry_smaller(entries@, entries@.len(), at as int);
                    }
                    let key = entries[at].key.to_string();
                    let value = entries[at].value.to_string();
                    let shown = quote(value.as_str());
                    if at == 0 {
                        text.append(" { ");
                    } else {
                        text.append(", ");
                    }
                    text.append(key.as_str());
                    text.append(": ");
                    text.append(shown.as_str());
                    at = at + 1;
                }
                if entries.len() > 0 {
                    text.append(" }");
                }
                text
            },
            Value::Function(names, body) => {
                let mut text = "[".to_owned();
                let list = list_names(names);
                text.append(list.as_str());
                text.append("]");
                text.append(" -> ");
                text.append(body.text.as_str());
                text
            },
            Value::Keyword(word) => word.to_string(),
        }
    }
}

} // verus!
