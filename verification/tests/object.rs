use std::collections::hash_map::DefaultHasher;
use std::hash::Hasher;

use langcore::types::boolean::Boolean;
use langcore::types::keyword::Keyword;
use langcore::types::number::Number;
use langcore::types::object::{get, insert, slot_of};
use langcore::types::value::{Entry, Syntax, Value};

fn num(x: f64) -> Value {
    Value::Number(Number::new(x.to_bits(), format!("{}", x)))
}

fn string(s: &str) -> Value {
    Value::String(s.to_string())
}

fn keys(entries: &Vec<Entry>) -> Vec<String> {
    entries.iter().map(|entry| entry.key.to_string()).collect()
}

fn hash_of(value: &Value) -> u64 {
    let mut state = DefaultHasher::new();
    value.hash(&mut state);
    state.finish()
}

fn filled(order: &[usize]) -> Vec<Entry> {
    let pairs = |i: usize| match i {
        0 => (Value::Boolean(Boolean::Maybe), num(0.0)),
        1 => (string("b"), num(1.0)),
        2 => (string("a"), num(2.0)),
        3 => (num(-1.0), num(3.0)),
        4 => (num(7.0), num(4.0)),
        5 => (Value::Keyword(Keyword::Var), num(5.0)),
        _ => (Value::Keyword(Keyword::Const), num(6.0)),
    };
    let mut entries = Vec::new();
    for &i in order {
        let (key, value) = pairs(i);
        assert_eq!(insert(&mut entries, key, value), None);
    }
    entries
}

#[test]
fn insert_keeps_the_keys_in_order() {
    let entries = filled(&[5, 3, 1, 6, 0, 4, 2]);
    assert_eq!(keys(&entries), vec!["maybe", "\"a\"", "\"b\"", "-1", "7", "const", "var"]);
}

#[test]
fn entries_do_not_depend_on_the_order_of_insertion() {
    let one = filled(&[0, 1, 2, 3, 4, 5, 6]);
    let other = filled(&[6, 5, 4, 3, 2, 1, 0]);
    let third = filled(&[3, 0, 6, 2, 5, 1, 4]);
    assert_eq!(one, other);
    assert_eq!(one, third);
    assert_eq!(hash_of(&Value::Object(one)), hash_of(&Value::Object(other)));
}

#[test]
fn insert_replaces_the_value_under_the_same_key() {
    let mut entries = filled(&[1, 4]);
    assert_eq!(insert(&mut entries, string("b"), string("new")), Some(num(1.0)));
    assert_eq!(entries.len(), 2);
    assert_eq!(get(&entries, &string("b")), Some(&string("new")));
    assert_eq!(insert(&mut entries, num(7.0), num(8.0)), Some(num(4.0)));
    assert_eq!(get(&entries, &num(7.0)), Some(&num(8.0)));
}

#[test]
fn the_key_that_was_there_stays() {
    let mut entries = Vec::new();
    assert_eq!(insert(&mut entries, num(0.0), string("first")), None);
    assert_eq!(insert(&mut entries, num(-0.0), string("second")), Some(string("first")));
    assert_eq!(entries, vec![Entry { key: num(0.0), value: string("second") }]);
}

#[test]
fn get_finds_what_was_put_in() {
    let entries = filled(&[2, 1, 3]);
    assert_eq!(get(&entries, &string("a")), Some(&num(2.0)));
    assert_eq!(get(&entries, &string("b")), Some(&num(1.0)));
    assert_eq!(get(&entries, &num(-1.0)), Some(&num(3.0)));
    assert_eq!(get(&entries, &string("c")), None);
    assert_eq!(get(&Vec::new(), &string("a")), None);
}

#[test]
fn slot_is_behind_the_smaller_keys() {
    let entries = filled(&[1, 2, 4]);
    assert_eq!(slot_of(&entries, &Value::Boolean(Boolean::True)), 0);
    assert_eq!(slot_of(&entries, &string("a")), 0);
    assert_eq!(slot_of(&entries, &string("ab")), 1);
    assert_eq!(slot_of(&entries, &string("b")), 1);
    assert_eq!(slot_of(&entries, &num(7.0)), 2);
    assert_eq!(slot_of(&entries, &num(8.0)), 3);
    assert_eq!(slot_of(&entries, &Value::Keyword(Keyword::If)), 3);
}

#[test]
fn one_object_key_can_stand_among_others() {
    let mut entries = filled(&[1, 5]);
    assert_eq!(insert(&mut entries, Value::empty_object(), num(9.0)), None);
    assert_eq!(keys(&entries), vec!["\"b\"", "object", "var"]);
}

#[test]
fn equal_values_hash_alike() {
    let function = |body: &str| {
        Value::Function(vec![String::from("a"), String::from("b")], Syntax { text: body.to_string() })
    };
    assert_eq!(hash_of(&string("abc")), hash_of(&string("abc")));
    assert_eq!(hash_of(&num(1.5)), hash_of(&num(1.5)));
    assert_eq!(hash_of(&function("a + b")), hash_of(&function("a + b")));
    assert_eq!(
        hash_of(&Value::Object(filled(&[1, 2]))),
        hash_of(&Value::Object(filled(&[2, 1])))
    );
}

#[test]
fn different_values_hash_apart() {
    let samples = vec![
        Value::Boolean(Boolean::True),
        Value::Boolean(Boolean::False),
        Value::Boolean(Boolean::Maybe),
        string(""),
        string("a"),
        string("ab"),
        num(0.0),
        num(-0.0),
        num(1.0),
        Value::empty_object(),
        Value::Object(filled(&[1])),
        Value::Object(filled(&[1, 2])),
        Value::Function(vec![], Syntax { text: String::from("ab") }),
        Value::Function(vec![String::from("a")], Syntax { text: String::from("b") }),
        Value::Function(vec![String::from("ab")], Syntax { text: String::new() }),
        Value::Keyword(Keyword::Const),
        Value::Keyword(Keyword::Var),
    ];
    for (i, a) in samples.iter().enumerate() {
        for (j, b) in samples.iter().enumerate() {
            assert_eq!(hash_of(a) == hash_of(b), i == j, "{} and {}", i, j);
        }
    }
}

#[test]
fn a_number_is_hashed_by_its_bits_alone() {
    let written = Value::Number(Number::new(1f64.to_bits(), String::from("1")));
    let spelled = Value::Number(Number::new(1f64.to_bits(), String::from("1.0")));
    assert_eq!(hash_of(&written), hash_of(&spelled));
}

#[test]
fn hashing_goes_on_from_what_was_written() {
    let mut state = DefaultHasher::new();
    string("a").hash(&mut state);
    string("b").hash(&mut state);
    let both = state.finish();
    let mut other = DefaultHasher::new();
    string("ab").hash(&mut other);
    assert_ne!(both, other.finish());
}

#[test]
fn well_formed_values_have_ascending_keys() {
    assert!(Value::empty_object().is_well_formed());
    assert!(string("a").is_well_formed());
    assert!(Value::Object(filled(&[3, 1, 5, 0])).is_well_formed());
    let unordered = vec![
        Entry { key: string("b"), value: num(1.0) },
        Entry { key: string("a"), value: num(2.0) },
    ];
    assert!(!Value::Object(unordered).is_well_formed());
    let twice = vec![
        Entry { key: num(0.0), value: num(1.0) },
        Entry { key: num(-0.0), value: num(2.0) },
    ];
    assert!(!Value::Object(twice).is_well_formed());
    let two_objects = vec![
        Entry { key: Value::empty_object(), value: num(1.0) },
        Entry { key: Value::Object(filled(&[1])), value: num(2.0) },
    ];
    assert!(!Value::Object(two_objects).is_well_formed());
}

#[test]
fn well_formedness_reaches_into_keys_and_values() {
    let bad = || {
        Value::Object(vec![
            Entry { key: num(2.0), value: num(1.0) },
            Entry { key: num(1.0), value: num(2.0) },
        ])
    };
    let in_value = vec![Entry { key: string("k"), value: bad() }];
    assert!(!Value::Object(in_value).is_well_formed());
    let in_key = vec![Entry { key: bad(), value: string("v") }];
    assert!(!Value::Object(in_key).is_well_formed());
    let good = vec![Entry { key: string("k"), value: Value::Object(filled(&[4, 3])) }];
    assert!(Value::Object(good).is_well_formed());
}
