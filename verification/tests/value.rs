use std::cmp::Ordering;

use langcore::types::arithmetic::{repeat, FloatOp, Outcome};
use langcore::types::boolean::Boolean;
use langcore::types::equality::{Answer, Equality, Question};
use langcore::types::keyword::Keyword;
use langcore::types::number::Number;
use langcore::types::order::{find_key, order_texts};
use langcore::types::value::{Entry, Syntax, Value};

fn num(x: f64) -> Value {
    Value::Number(Number::new(x.to_bits(), format!("{}", x)))
}

fn string(s: &str) -> Value {
    Value::String(s.to_string())
}

fn boolean(b: Boolean) -> Value {
    Value::Boolean(b)
}

fn object(entries: Vec<(Value, Value)>) -> Value {
    Value::Object(entries.into_iter().map(|(key, value)| Entry { key, value }).collect())
}

fn function(names: &[&str], body: &str) -> Value {
    Value::Function(
        names.iter().map(|name| name.to_string()).collect(),
        Syntax { text: body.to_string() },
    )
}

fn one_of_each() -> Vec<Value> {
    vec![
        boolean(Boolean::Maybe),
        string("text"),
        num(2.5),
        object(vec![(string("k"), num(1.0))]),
        function(&["a"], "a"),
        Value::Keyword(Keyword::If),
    ]
}

fn perform(op: FloatOp) -> Value {
    let f = f64::from_bits;
    num(match op {
        FloatOp::Sum(l, r) => f(l) + f(r),
        FloatOp::Difference(l, r) => f(l) - f(r),
        FloatOp::Product(l, r) => f(l) * f(r),
        FloatOp::Quotient(l, r) => f(l) / f(r),
        FloatOp::Remainder(l, r) => f(l) % f(r),
        FloatOp::Negation(x) => -f(x),
    })
}

fn finish(outcome: Outcome) -> Value {
    match outcome {
        Outcome::Value(v) => v,
        Outcome::Number(op) => perform(op),
        Outcome::Repeat { text, factor, backwards } => {
            let size = f64::from_bits(factor).abs();
            let whole = size.floor() as usize;
            let part = ((size - size.floor()) * text.chars().count() as f64).round() as usize;
            repeat(&text, whole, part, backwards)
        }
    }
}

fn near(l: f64, r: f64) -> bool {
    (l / r).ln().abs() < 0.1
}

fn answer(question: &Question) -> Answer {
    match question {
        Question::Near { lhs, rhs } => Answer::Near(near(f64::from_bits(*lhs), f64::from_bits(*rhs))),
        Question::Reads { text, number, .. } => match text.parse::<f64>() {
            Ok(read) => Answer::Read {
                number: read.to_bits(),
                near: near(f64::from_bits(*number), read),
            },
            Err(_) => Answer::Unreadable,
        },
    }
}

fn equal(a: &Value, b: &Value, precision: u8) -> Value {
    let found = a.eq(b, precision);
    let answers: Vec<Answer> = found.questions.iter().map(answer).collect();
    found.value(&answers)
}

fn yes() -> Value {
    boolean(Boolean::True)
}

fn no() -> Value {
    boolean(Boolean::False)
}

#[test]
fn truth_of_booleans() {
    assert_eq!(boolean(Boolean::True).bool(), Boolean::True);
    assert_eq!(boolean(Boolean::False).bool(), Boolean::False);
    assert_eq!(boolean(Boolean::Maybe).bool(), Boolean::Maybe);
}

#[test]
fn truth_of_numbers() {
    assert_eq!(num(1.0).bool(), Boolean::True);
    assert_eq!(num(7.25).bool(), Boolean::True);
    assert_eq!(num(f64::INFINITY).bool(), Boolean::True);
    assert_eq!(num(0.0).bool(), Boolean::False);
    assert_eq!(num(-0.0).bool(), Boolean::False);
    assert_eq!(num(-3.0).bool(), Boolean::False);
    assert_eq!(num(f64::NEG_INFINITY).bool(), Boolean::False);
    assert_eq!(num(0.5).bool(), Boolean::Maybe);
    assert_eq!(num(f64::MIN_POSITIVE).bool(), Boolean::Maybe);
    assert_eq!(num(0.9999999999999999).bool(), Boolean::Maybe);
    assert_eq!(num(f64::NAN).bool(), Boolean::Maybe);
    assert_eq!(num(-f64::NAN).bool(), Boolean::Maybe);
}

#[test]
fn truth_of_the_other_kinds() {
    assert_eq!(string("").bool(), Boolean::False);
    assert_eq!(string("a").bool(), Boolean::True);
    assert_eq!(Value::empty_object().bool(), Boolean::False);
    assert_eq!(object(vec![(string("k"), num(0.0))]).bool(), Boolean::True);
    assert_eq!(function(&[], "").bool(), Boolean::Maybe);
    assert_eq!(Value::Keyword(Keyword::Var).bool(), Boolean::Maybe);
}

#[test]
fn truth_is_there_for_every_kind() {
    for value in one_of_each() {
        let truth = value.bool();
        assert!(matches!(truth, Boolean::True | Boolean::False | Boolean::Maybe));
    }
}

#[test]
fn a_copy_is_the_same_value() {
    let nested = object(vec![
        (string("k"), object(vec![(num(1.0), function(&["a", "b"], "a + b"))])),
        (num(-0.0), boolean(Boolean::Maybe)),
    ]);
    let mut samples = one_of_each();
    samples.push(nested);
    samples.push(Value::empty_object());
    samples.push(function(&[], ""));
    for value in samples {
        let copy = value.clone();
        assert_eq!(copy, value);
        assert_eq!(copy.to_string(), value.to_string());
        assert_eq!(copy.bool(), value.bool());
    }
    let entry = Entry { key: string("k"), value: num(2.0) };
    assert_eq!(entry.clone(), entry);
}

#[test]
fn a_copy_can_stand_for_a_value_that_an_operator_takes() {
    let text = string("ab");
    let factor = num(2.0);
    assert_eq!(finish(text.clone().mul(factor.clone())), string("abab"));
    assert_eq!(finish(text.add(factor)), string("ab2"));
}

#[test]
fn default_is_the_empty_object() {
    assert_eq!(Value::default(), Value::Object(vec![]));
    assert_eq!(Value::empty_object(), Value::Object(vec![]));
}

#[test]
fn conversions() {
    assert_eq!(Boolean::from(true), Boolean::True);
    assert_eq!(Boolean::from(false), Boolean::False);
    assert_eq!(Value::from(true), boolean(Boolean::True));
    assert_eq!(Value::from(false), boolean(Boolean::False));
    assert_eq!(Value::from("ab"), string("ab"));
    assert_eq!(Value::from(String::from("ab")), string("ab"));
    assert_eq!(Value::from(Keyword::Eval), Value::Keyword(Keyword::Eval));
    assert_eq!(Value::from(Boolean::Maybe), boolean(Boolean::Maybe));
    assert_eq!(Value::from(Number::new(0, String::from("0"))), num(0.0));
}

#[test]
fn kleene_and() {
    let (t, f, m) = (Boolean::True, Boolean::False, Boolean::Maybe);
    assert_eq!(t.and(t), t);
    assert_eq!(t.and(f), f);
    assert_eq!(f.and(t), f);
    assert_eq!(f.and(m), f);
    assert_eq!(m.and(f), f);
    assert_eq!(t.and(m), m);
    assert_eq!(m.and(t), m);
    assert_eq!(m.and(m), m);
    assert_eq!(f.and(f), f);
}

#[test]
fn kleene_or() {
    let (t, f, m) = (Boolean::True, Boolean::False, Boolean::Maybe);
    assert_eq!(t.or(t), t);
    assert_eq!(t.or(f), t);
    assert_eq!(f.or(t), t);
    assert_eq!(t.or(m), t);
    assert_eq!(m.or(t), t);
    assert_eq!(f.or(m), m);
    assert_eq!(m.or(f), m);
    assert_eq!(m.or(m), m);
    assert_eq!(f.or(f), f);
}

#[test]
fn flip() {
    assert_eq!(Boolean::True.flip(), Boolean::False);
    assert_eq!(Boolean::False.flip(), Boolean::True);
    assert_eq!(Boolean::Maybe.flip(), Boolean::Maybe);
}

#[test]
fn words() {
    assert_eq!(Boolean::True.to_string(), "true");
    assert_eq!(Boolean::False.to_string(), "false");
    assert_eq!(Boolean::Maybe.to_string(), "maybe");
    assert_eq!(Keyword::Const.to_string(), "const");
    assert_eq!(Keyword::Delete.to_string(), "delete");
    assert_eq!(Keyword::Eval.to_string(), "eval");
    assert_eq!(Keyword::Function.to_string(), "function");
    assert_eq!(Keyword::If.to_string(), "if");
    assert_eq!(Keyword::Var.to_string(), "var");
}

#[test]
fn ranks_follow_the_declarations() {
    assert!(Boolean::True.rank() < Boolean::False.rank());
    assert!(Boolean::False.rank() < Boolean::Maybe.rank());
    assert!(Boolean::True < Boolean::False && Boolean::False < Boolean::Maybe);
    let words = [
        Keyword::Const,
        Keyword::Delete,
        Keyword::Eval,
        Keyword::Function,
        Keyword::If,
        Keyword::Var,
    ];
    for pair in words.windows(2) {
        assert!(pair[0].rank() < pair[1].rank());
        assert!(pair[0] < pair[1]);
    }
}

#[test]
fn kinds_order_values_of_different_kinds() {
    let values = one_of_each();
    for (i, a) in values.iter().enumerate() {
        for (j, b) in values.iter().enumerate() {
            if i != j {
                assert_eq!(a.partial_cmp(b), Some(i.cmp(&j)));
                assert_eq!(a.cmp(b), i.cmp(&j));
            }
        }
    }
}

#[test]
fn numbers_order_as_floats_do() {
    let samples = [
        f64::NEG_INFINITY,
        -2.5,
        -1.0,
        -f64::MIN_POSITIVE,
        -0.0,
        0.0,
        f64::MIN_POSITIVE,
        0.5,
        1.0,
        1e300,
        f64::INFINITY,
        f64::NAN,
    ];
    for a in samples {
        for b in samples {
            assert_eq!(num(a).partial_cmp(&num(b)), a.partial_cmp(&b), "{} and {}", a, b);
        }
    }
}

#[test]
fn strings_order_as_text_does() {
    let samples = ["", "a", "ab", "abc", "b", "B", "é", "z", "円", "\u{10000}"];
    for a in samples {
        for b in samples {
            assert_eq!(string(a).partial_cmp(&string(b)), Some(a.cmp(b)), "{} and {}", a, b);
            assert_eq!(order_texts(a, b), a.cmp(b));
        }
    }
}

#[test]
fn booleans_and_keywords_order_by_declaration() {
    assert_eq!(
        boolean(Boolean::True).partial_cmp(&boolean(Boolean::False)),
        Some(Ordering::Less)
    );
    assert_eq!(
        boolean(Boolean::Maybe).partial_cmp(&boolean(Boolean::False)),
        Some(Ordering::Greater)
    );
    assert_eq!(
        boolean(Boolean::Maybe).partial_cmp(&boolean(Boolean::Maybe)),
        Some(Ordering::Equal)
    );
    assert_eq!(
        Value::Keyword(Keyword::Const).partial_cmp(&Value::Keyword(Keyword::Var)),
        Some(Ordering::Less)
    );
    assert_eq!(
        Value::Keyword(Keyword::If).partial_cmp(&Value::Keyword(Keyword::Eval)),
        Some(Ordering::Greater)
    );
}

#[test]
fn objects_and_functions_have_no_order_among_themselves() {
    let a = object(vec![(string("k"), num(1.0))]);
    let b = object(vec![]);
    assert_eq!(a.partial_cmp(&b), None);
    assert_eq!(a.partial_cmp(&a), None);
    assert_eq!(function(&["x"], "x").partial_cmp(&function(&[], "y")), None);
}

#[test]
fn keys_are_found_by_order() {
    let entries = vec![
        Entry { key: string("a"), value: num(1.0) },
        Entry { key: num(0.0), value: num(2.0) },
        Entry { key: object(vec![]), value: num(3.0) },
    ];
    assert_eq!(find_key(&entries, &string("a")), Some(0));
    assert_eq!(find_key(&entries, &num(-0.0)), Some(1));
    assert_eq!(find_key(&entries, &num(1.0)), None);
    assert_eq!(find_key(&entries, &object(vec![])), None);
    assert!(string("a").is_same_key(&string("a")));
    assert!(!string("a").is_same_key(&string("b")));
}

#[test]
fn values_are_written() {
    assert_eq!(boolean(Boolean::Maybe).to_string(), "maybe");
    assert_eq!(string("a\"b\n").to_string(), "\"a\\\"b\\n\"");
    assert_eq!(string("a\"b\n").to_string(), format!("{:?}", "a\"b\n"));
    assert_eq!(num(1.0).to_string(), "1");
    assert_eq!(num(-0.5).to_string(), "-0.5");
    assert_eq!(Value::Keyword(Keyword::Function).to_string(), "function");
    assert_eq!(Value::empty_object().to_string(), "object");
    assert_eq!(
        object(vec![(string("k"), num(1.0)), (num(2.0), string("v"))]).to_string(),
        "object { \"k\": \"1\", 2: \"\\\"v\\\"\" }"
    );
    assert_eq!(
        object(vec![(num(1.0), object(vec![(num(2.0), num(3.0))]))]).to_string(),
        "object { 1: \"object { 2: \\\"3\\\" }\" }"
    );
    assert_eq!(function(&[], "body").to_string(), "[] -> body");
    assert_eq!(function(&["a", "b\"c"], "a + b").to_string(), "[\"a\", \"b\\\"c\"] -> a + b");
}

#[test]
fn objects_are_written_as_a_debug_struct_is() {
    struct Shown(Vec<(String, String)>);
    impl std::fmt::Display for Shown {
        fn fmt(&self, f: &mut std::fmt::Formatter<'_>) -> std::fmt::Result {
            let mut map = f.debug_struct("object");
            for (k, v) in &self.0 {
                map.field(k, v);
            }
            map.finish()
        }
    }
    let value = object(vec![(string("k"), num(1.0)), (num(2.0), string("v"))]);
    let expected = Shown(vec![
        (format!("{:?}", "k"), String::from("1")),
        (String::from("2"), format!("{:?}", "v")),
    ]);
    assert_eq!(value.to_string(), format!("{}", expected));
    let names = vec![String::from("a"), String::from("b")];
    assert_eq!(function(&["a", "b"], "x").to_string(), format!("{:?} -> {}", names, "x"));
}

#[test]
fn false_values_are_equal_at_every_precision() {
    let falsy = [no(), num(0.0), num(-4.0), string(""), Value::empty_object()];
    for a in &falsy {
        for b in &falsy {
            for precision in 0..=2u8 {
                let found = a.eq(b, precision);
                assert_eq!(found, Equality { possible: true, questions: vec![] });
                assert_eq!(equal(a, b, precision), yes());
            }
        }
    }
}

#[test]
fn numeric_tolerance() {
    assert_eq!(equal(&num(10.0), &num(11.0), 1), yes());
    assert_eq!(equal(&num(10.0), &num(11.0), 0), no());
    assert_eq!(equal(&num(10.0), &num(12.0), 1), no());
    assert_eq!(equal(&num(10.0), &num(10.0), 0), yes());
}

#[test]
fn tolerance_is_asked_of_the_host() {
    let found = num(10.0).eq(&num(11.0), 1);
    assert!(found.possible);
    assert!(!found.is_settled());
    assert_eq!(
        found.questions,
        vec![Question::Near { lhs: 10f64.to_bits(), rhs: 11f64.to_bits() }]
    );
    assert_eq!(found.value(&vec![Answer::Near(true)]), yes());
    assert_eq!(found.value(&vec![Answer::Near(false)]), no());
    assert_eq!(found.value(&vec![Answer::Unreadable]), no());
    assert_eq!(found.value(&vec![Answer::Read { number: 10f64.to_bits(), near: true }]), no());
    let strict = num(10.0).eq(&num(11.0), 0);
    assert_eq!(strict, Equality { possible: false, questions: vec![] });
    assert!(strict.is_settled());
    assert_eq!(strict.value(&vec![]), no());
}

#[test]
fn zeros_are_equal_and_nan_is_not() {
    assert_eq!(num(1.0).eq(&num(1.0), 0), Equality { possible: true, questions: vec![] });
    assert_eq!(equal(&num(f64::NAN), &num(f64::NAN), 0), no());
    assert_eq!(equal(&num(2.0), &num(f64::NAN), 0), no());
}

#[test]
fn booleans_compare_by_truth_at_precision_one() {
    assert_eq!(equal(&yes(), &string("aaa"), 1), yes());
    assert_eq!(equal(&string("aaa"), &yes(), 1), yes());
    assert_eq!(equal(&yes(), &num(3.0), 1), yes());
    assert_eq!(equal(&boolean(Boolean::Maybe), &num(0.5), 1), yes());
    assert_eq!(equal(&boolean(Boolean::Maybe), &Value::Keyword(Keyword::If), 1), yes());
    assert_eq!(equal(&yes(), &string("aaa"), 0), no());
    assert_eq!(equal(&yes(), &string("aaa"), 2), no());
    assert_eq!(equal(&no(), &string("aaa"), 1), no());
    assert_eq!(equal(&yes(), &yes(), 0), no());
    assert_eq!(equal(&yes(), &yes(), 1), yes());
    assert_eq!(equal(&yes(), &yes(), 2), yes());
}

#[test]
fn precision_two_compares_what_is_written() {
    assert_eq!(equal(&string("a"), &string("a"), 2), yes());
    assert_eq!(equal(&string("a"), &string("A"), 2), no());
    assert_eq!(equal(&string("1"), &num(1.0), 2), no());
    assert_eq!(equal(&function(&[], "true"), &function(&[], "true"), 2), yes());
    assert_eq!(equal(&Value::Keyword(Keyword::If), &function(&[], "if"), 2), no());
    assert_eq!(
        equal(&num(1.0), &Value::Number(Number::new(2f64.to_bits(), String::from("1"))), 2),
        yes()
    );
}

#[test]
fn precision_one_ignores_case_and_outer_space() {
    assert_eq!(equal(&string("Hello"), &string("hELLO"), 1), yes());
    assert_eq!(equal(&string("Hello"), &string("hELLO"), 0), no());
    assert_eq!(equal(&function(&[], "x  "), &function(&[], "X"), 1), yes());
    assert_eq!(equal(&function(&[], "x  "), &function(&[], "X"), 0), no());
    assert_eq!(equal(&function(&[], "x y"), &function(&[], "xy"), 1), no());
    assert_eq!(equal(&string(" a"), &string("a"), 1), no());
}

#[test]
fn strings_and_keywords_by_kind() {
    assert_eq!(equal(&string("a"), &string("a"), 0), yes());
    assert_eq!(equal(&string("a"), &string("b"), 0), no());
    assert_eq!(equal(&Value::Keyword(Keyword::If), &Value::Keyword(Keyword::If), 0), yes());
    assert_eq!(equal(&Value::Keyword(Keyword::If), &Value::Keyword(Keyword::Var), 0), no());
    assert_eq!(equal(&Value::Keyword(Keyword::If), &Value::Keyword(Keyword::Var), 1), no());
}

#[test]
fn strings_are_read_as_numbers() {
    assert_eq!(equal(&string("2.5"), &num(2.5), 0), yes());
    assert_eq!(equal(&num(2.5), &string("2.5"), 0), yes());
    assert_eq!(equal(&string("2.5"), &num(2.6), 0), no());
    assert_eq!(equal(&string("2.5"), &num(2.6), 1), yes());
    assert_eq!(equal(&string("two"), &num(2.0), 0), no());
    assert_eq!(equal(&string("two"), &num(2.0), 1), no());
    assert_eq!(
        string("2.5").eq(&num(2.6), 1).questions,
        vec![Question::Reads { text: String::from("2.5"), number: 2.6f64.to_bits(), tolerant: true }]
    );
    assert_eq!(
        num(2.6).eq(&string("2.5"), 0).questions,
        vec![Question::Reads {
            text: String::from("2.5"),
            number: 2.6f64.to_bits(),
            tolerant: false
        }]
    );
}

#[test]
fn answers_about_texts_are_weighed_here() {
    let strict = string("2.5").eq(&num(2.5), 0);
    let same = Answer::Read { number: 2.5f64.to_bits(), near: true };
    let close = Answer::Read { number: 2.6f64.to_bits(), near: true };
    let far = Answer::Read { number: 9f64.to_bits(), near: false };
    assert_eq!(strict.value(&vec![same]), yes());
    assert_eq!(strict.value(&vec![close]), no());
    assert_eq!(strict.value(&vec![far]), no());
    assert_eq!(strict.value(&vec![Answer::Unreadable]), no());
    let loose = string("2.5").eq(&num(2.5), 1);
    assert_eq!(loose.value(&vec![same]), yes());
    assert_eq!(loose.value(&vec![close]), yes());
    assert_eq!(loose.value(&vec![far]), no());
    assert_eq!(loose.value(&vec![Answer::Unreadable]), no());
    assert_eq!(loose.value(&vec![Answer::Near(true)]), no());
    let zero = string("-0").eq(&num(1.0), 0);
    assert_eq!(zero.value(&vec![Answer::Read { number: (-0f64).to_bits(), near: false }]), no());
    let nan = string("NaN").eq(&num(f64::NAN), 0);
    assert_eq!(nan.value(&vec![Answer::Read { number: f64::NAN.to_bits(), near: false }]), no());
}

#[test]
fn objects_are_equal_entry_by_entry() {
    let a = object(vec![(string("x"), num(1.0)), (string("y"), string("s"))]);
    let b = object(vec![(string("x"), num(1.0)), (string("y"), string("s"))]);
    assert_eq!(equal(&a, &b, 0), yes());
    let other_value = object(vec![(string("x"), num(2.0)), (string("y"), string("s"))]);
    assert_eq!(equal(&a, &other_value, 0), no());
    let fewer = object(vec![(string("x"), num(1.0))]);
    assert_eq!(equal(&a, &fewer, 0), no());
    assert_eq!(equal(&fewer, &a, 0), no());
    let other_key = object(vec![(string("x"), num(1.0)), (string("z"), string("s"))]);
    assert_eq!(equal(&a, &other_key, 0), no());
}

#[test]
fn objects_ask_for_each_number_that_may_be_near() {
    let a = object(vec![(string("x"), num(10.0)), (string("y"), num(5.0))]);
    let b = object(vec![(string("x"), num(11.0)), (string("y"), num(5.2))]);
    let found = a.eq(&b, 1);
    assert!(found.possible);
    assert_eq!(
        found.questions,
        vec![
            Question::Near { lhs: 11f64.to_bits(), rhs: 10f64.to_bits() },
            Question::Near { lhs: 5.2f64.to_bits(), rhs: 5f64.to_bits() },
        ]
    );
    assert_eq!(equal(&a, &b, 1), yes());
    assert_eq!(found.value(&vec![Answer::Near(true), Answer::Near(false)]), no());
    assert_eq!(found.value(&vec![Answer::Near(true), Answer::Near(true)]), yes());
    assert_eq!(equal(&a, &b, 0), no());
}

#[test]
fn nested_objects() {
    let inner_a = object(vec![(num(1.0), string("v"))]);
    let inner_b = object(vec![(num(1.0), string("v"))]);
    let inner_c = object(vec![(num(1.0), string("w"))]);
    let a = object(vec![(string("k"), inner_a)]);
    let b = object(vec![(string("k"), inner_b)]);
    let c = object(vec![(string("k"), inner_c)]);
    assert_eq!(equal(&a, &b, 0), yes());
    assert_eq!(equal(&a, &c, 0), no());
}

#[test]
fn other_pairs_are_not_equal() {
    assert_eq!(equal(&function(&["a"], "a"), &function(&["a"], "a"), 0), no());
    assert_eq!(equal(&string("a"), &Value::Keyword(Keyword::If), 0), no());
    assert_eq!(equal(&num(1.0), &object(vec![(num(1.0), num(1.0))]), 0), no());
    assert_eq!(equal(&yes(), &boolean(Boolean::Maybe), 0), no());
}

#[test]
fn precision_beyond_two_compares_by_kind_only() {
    assert_eq!(equal(&string(""), &Value::empty_object(), 3), no());
    assert_eq!(equal(&string("a"), &string("a"), 3), yes());
    assert_eq!(equal(&num(10.0), &num(11.0), 3), no());
}

#[test]
fn numbers_add_up() {
    assert_eq!(finish(num(1.5).add(num(2.0))), num(3.5));
    assert_eq!(num(1.5).add(num(2.0)), Outcome::Number(FloatOp::Sum(1.5f64.to_bits(), 2f64.to_bits())));
}

#[test]
fn booleans_add_to_numbers() {
    assert_eq!(finish(boolean(Boolean::True).add(num(2.0))), num(3.0));
    assert_eq!(finish(num(2.0).add(boolean(Boolean::True))), num(3.0));
    assert_eq!(finish(boolean(Boolean::Maybe).add(num(2.0))), num(2.5));
    assert_eq!(finish(num(2.0).add(boolean(Boolean::Maybe))), num(2.5));
    assert_eq!(finish(boolean(Boolean::False).add(num(2.0))), num(2.0));
    assert_eq!(
        num(2.0).add(boolean(Boolean::Maybe)),
        Outcome::Number(FloatOp::Sum(0.5f64.to_bits(), 2f64.to_bits()))
    );
}

#[test]
fn string_to_the_left_takes_what_is_written() {
    assert_eq!(finish(string("").add(num(5.0))), string("5"));
    assert_eq!(finish(string("n=").add(num(5.5))), string("n=5.5"));
    assert_eq!(finish(string("a").add(string("b"))), string("a\"b\""));
    assert_eq!(finish(string("is ").add(boolean(Boolean::Maybe))), string("is maybe"));
    assert_eq!(finish(string("o: ").add(Value::empty_object())), string("o: object"));
    assert_eq!(finish(string("k ").add(Value::Keyword(Keyword::Var))), string("k var"));
}

#[test]
fn number_to_the_left_of_a_string_gives_the_default() {
    assert_eq!(finish(num(5.0).add(string(""))), Value::empty_object());
    assert_eq!(finish(num(5.0).add(string("a"))), Value::empty_object());
}

#[test]
fn subtraction_is_for_numbers() {
    assert_eq!(finish(num(5.0).sub(num(1.5))), num(3.5));
    assert_eq!(finish(string("a").sub(num(1.0))), Value::empty_object());
    assert_eq!(finish(boolean(Boolean::True).sub(num(1.0))), Value::empty_object());
}

#[test]
fn numbers_multiply() {
    assert_eq!(finish(num(5.0).mul(num(1.5))), num(7.5));
    assert_eq!(finish(num(2.0).mul(string("ab"))), Value::empty_object());
}

#[test]
fn strings_repeat() {
    assert_eq!(finish(string("ab").mul(num(-1.5))), string("aba"));
    assert_eq!(finish(string("abc").mul(num(-1.5))), string("bacba"));
    assert_eq!(finish(string("abc").mul(num(1.5))), string("abcab"));
    assert_eq!(finish(string("abc").mul(num(2.0))), string("abcabc"));
    assert_eq!(finish(string("abc").mul(num(0.0))), string(""));
    assert_eq!(finish(string("abc").mul(num(0.34))), string("a"));
    assert_eq!(finish(string("").mul(num(3.5))), string(""));
    assert_eq!(finish(string("héé").mul(num(-1.0))), string("ééh"));
}

#[test]
fn repeat_builds_from_counts() {
    assert_eq!(repeat("abc", 2, 1, false), string("abcabca"));
    assert_eq!(repeat("abc", 2, 1, true), string("acbacba"));
    assert_eq!(repeat("abc", 0, 3, false), string("abc"));
    assert_eq!(repeat("abc", 0, 0, true), string(""));
    assert_eq!(
        string("ab").mul(num(-1.5)),
        Outcome::Repeat { text: String::from("ab"), factor: (-1.5f64).to_bits(), backwards: true }
    );
}

#[test]
fn division_and_remainder() {
    assert_eq!(finish(num(7.0).div(num(2.0))), num(3.5));
    assert_eq!(finish(num(7.0).rem(num(2.0))), num(1.0));
    assert_eq!(finish(num(7.0).div(num(0.0))), Value::empty_object());
    assert_eq!(finish(num(7.0).div(num(-0.0))), Value::empty_object());
    assert_eq!(finish(num(7.0).rem(num(0.0))), Value::empty_object());
    assert_eq!(finish(num(7.0).rem(num(-0.0))), Value::empty_object());
    assert_eq!(finish(string("a").div(num(2.0))), Value::empty_object());
    assert_eq!(finish(string("a").rem(num(2.0))), Value::empty_object());
}

#[test]
fn negation() {
    assert_eq!(finish(yes().neg()), no());
    assert_eq!(finish(no().neg()), yes());
    assert_eq!(finish(boolean(Boolean::Maybe).neg()), boolean(Boolean::Maybe));
    assert_eq!(finish(num(2.5).neg()), num(-2.5));
    assert_eq!(finish(num(0.0).neg()), num(-0.0));
    assert_eq!(finish(string("abc").neg()), string("cba"));
    assert_eq!(finish(string("añ円").neg()), string("円ña"));
    assert_eq!(finish(Value::Keyword(Keyword::If).neg()), Value::empty_object());
    assert_eq!(finish(function(&[], "x").neg()), Value::empty_object());
    assert_eq!(
        finish(object(vec![(num(1.0), num(1.0))]).neg()),
        Value::empty_object()
    );
}

#[test]
fn and_or_go_by_truth() {
    assert_eq!(finish(num(1.0).bitand(string("a"))), yes());
    assert_eq!(finish(num(1.0).bitand(string(""))), no());
    assert_eq!(finish(num(0.5).bitand(string("a"))), boolean(Boolean::Maybe));
    assert_eq!(finish(num(0.5).bitand(string(""))), no());
    assert_eq!(finish(num(0.0).bitor(string(""))), no());
    assert_eq!(finish(num(0.0).bitor(string("a"))), yes());
    assert_eq!(finish(num(0.5).bitor(Value::empty_object())), boolean(Boolean::Maybe));
    assert_eq!(finish(Value::Keyword(Keyword::If).bitor(yes())), yes());
}

#[test]
fn every_operator_has_a_result_for_every_pair_of_kinds() {
    let count = one_of_each().len();
    for i in 0..count {
        let value = one_of_each().remove(i);
        let kind = value.kind();
        let negated = finish(value.neg());
        if kind > 2 {
            assert_eq!(negated, Value::empty_object());
        }
        for j in 0..count {
            let pair = || (one_of_each().remove(i), one_of_each().remove(j));
            let numbers = i == 2 && j == 2;
            let (a, b) = pair();
            let sum = finish(a.add(b));
            if !(numbers || i == 1 || (i == 0 && j == 2) || (i == 2 && j == 0)) {
                assert_eq!(sum, Value::empty_object());
            }
            let (a, b) = pair();
            let difference = finish(a.sub(b));
            assert_eq!(difference == Value::empty_object(), !numbers);
            let (a, b) = pair();
            let product = finish(a.mul(b));
            assert_eq!(product == Value::empty_object(), !(numbers || (i == 1 && j == 2)));
            let (a, b) = pair();
            let quotient = finish(a.div(b));
            assert_eq!(quotient == Value::empty_object(), !numbers);
            let (a, b) = pair();
            let remainder = finish(a.rem(b));
            assert_eq!(remainder == Value::empty_object(), !numbers);
            let (a, b) = pair();
            assert!(matches!(finish(a.bitand(b)), Value::Boolean(_)));
            let (a, b) = pair();
            assert!(matches!(finish(a.bitor(b)), Value::Boolean(_)));
            let (a, b) = pair();
            for precision in 0..=2u8 {
                assert!(matches!(equal(&a, &b, precision), Value::Boolean(_)));
            }
        }
    }
}
