//! Equality of values at three levels of precision.
//!
//! Precision 0 compares by kind, precision 1 loosely (booleans by truth,
//! texts without regard to case and surrounding white space, numbers with a
//! tolerance), precision 2 by what the values look like when written. At
//! every precision two values that are both false in truth are equal.
//!
//! This library does no floating-point arithmetic. Where equality hangs on
//! the logarithm of a ratio or on reading a number from text, the comparison
//! ends with [`Question`]s for the host, and [`Equality::value`] weighs the
//! host's [`Answer`]s: the values are equal if and only if every answer says
//! so.

use vstd::prelude::*;
use crate::chars::{lowercased, trimmed};
use crate::types::boolean::Boolean;
use crate::types::number::{bits_eq, number_eq};
use crate::types::order::{find_key, has_key, place_of};
use crate::types::text::text_of;
use crate::types::value::{entries_size, lemma_entry_smaller, size, truth, Entry, Value};

verus! {

/// A text as loose comparison sees it: in lower case, then trimmed.
pub open spec fn loose(text: Seq<char>) -> Seq<char> {
    trimmed(lowercased(text))
}

/// What the host is asked where integers cannot decide.
#[derive(Clone, Debug, PartialEq, Eq)]
pub enum Question {
    /// Are the two numbers, given by their bit patterns, near each other:
    /// is the natural logarithm of `lhs / rhs`, in magnitude, below 0.1?
    Near { lhs: u64, rhs: u64 },
    /// What number does `text` read as, and is `number` near it (`number`
    /// to the left of the ratio)? The values are equal if the text reads as
    /// a number that equals `number` or, where `tolerant`, is near it.
    Reads { text: String, number: u64, tolerant: bool },
}

/// What the host answers.
#[derive(Clone, Copy, Debug, PartialEq, Eq)]
pub enum Answer {
    /// To [`Question::Near`]: whether the numbers are near each other.
    Near(bool),
    /// To [`Question::Reads`]: that the text reads as no number.
    Unreadable,
    /// To [`Question::Reads`]: the bit pattern of the number that the text
    /// reads as, and whether the question's number is near it.
    Read { number: u64, near: bool },
}

/// Whether an answer to a question says that the values are equal. An
/// answer of the wrong kind says that they are not.
pub open spec fn says_equal(question: Question, answer: Answer) -> bool {
    match (question, answer) {
        (Question::Near { .. }, Answer::Near(near)) => near,
        (Question::Reads { number, tolerant, .. }, Answer::Read { number: read, near }) => {
            number_eq(number, read) || (tolerant && near)
        },
        _ => false,
    }
}

/// What a comparison has found.
#[derive(Debug, PartialEq, Eq)]
pub struct Equality {
    /// False where the values are known to differ.
    pub possible: bool,
    /// The questions that are left. The values are equal if and only if
    /// `possible` holds and the answer to each question says so.
    pub questions: Vec<Question>,
}

/// What a comparison finds, as mathematics has it.
pub struct Finding {
    pub possible: bool,
    pub questions: Seq<Question>,
}

/// A comparison that has ended, with nothing left to ask.
pub open spec fn settled(equal: bool) -> Finding {
    Finding { possible: equal, questions: Seq::empty() }
}

/// A comparison that hangs on one question.
pub open spec fn asking(question: Question) -> Finding {
    Finding { possible: true, questions: seq![question] }
}

/// Both findings together: possible if both are, and then with the
/// questions of the first followed by those of the second.
pub open spec fn joined(first: Finding, second: Finding) -> Finding {
    if first.possible && second.possible {
        Finding { possible: true, questions: first.questions + second.questions }
    } else {
        settled(false)
    }
}

/// Whether one of the two values is a boolean that is the truth of the
/// other. Where the left value is a boolean, it is the one that is looked
/// at.
pub open spec fn boolean_agrees(a: Value, b: Value) -> bool {
    match (a, b) {
        (Value::Boolean(x), _) => truth(b) == x,
        (_, Value::Boolean(y)) => truth(a) == y,
        _ => false,
    }
}

/// How two numbers compare for equality: equal numbers are equal, and at
/// precision 1 others may still be near each other.
pub open spec fn numbers_equal(lhs: u64, rhs: u64, precision: u8) -> Finding {
    if number_eq(lhs, rhs) {
        settled(true)
    } else if precision == 1 {
        asking(Question::Near { lhs, rhs })
    } else {
        settled(false)
    }
}

/// Whether every key of the first `upto` entries of `entries` is a key of
/// `others`.
pub open spec fn keys_within(entries: Seq<Entry>, others: Seq<Entry>, upto: nat) -> bool {
    forall|i: int| 0 <= i < upto && i < entries.len() ==> has_key(others, #[trigger] entries[i].key)
}

/// Equality of two values at a precision.
pub open spec fn equality(a: Value, b: Value, precision: u8) -> Finding
    decreases size(a) + size(b), 0nat,
{
    if precision <= 2 && truth(a) == Boolean::False && truth(b) == Boolean::False {
        settled(true)
    } else if precision == 1 && boolean_agrees(a, b) {
        settled(true)
    } else if precision == 2 {
        settled(text_of(a) == text_of(b))
    } else if precision == 1 && loose(text_of(a)) == loose(text_of(b)) {
        settled(true)
    } else {
        match (a, b) {
            (Value::Number(x), Value::Number(y)) => numbers_equal(x.bits, y.bits, precision),
            (Value::String(x), Value::String(y)) => settled(x@ == y@),
            (Value::Keyword(x), Value::Keyword(y)) => settled(x == y),
            (Value::String(text), Value::Number(n)) => asking(
                Question::Reads { text, number: n.bits, tolerant: precision == 1 },
            ),
            (Value::Number(n), Value::String(text)) => asking(
                Question::Reads { text, number: n.bits, tolerant: precision == 1 },
            ),
            (Value::Object(left), Value::Object(right)) => joined(
                entries_equal(left@, right@, precision, left@.len()),
                settled(keys_within(right@, left@, right@.len())),
            ),
            _ => settled(false),
        }
    }
}

/// Equality of the first `upto` entries of `left` with the entries of
/// `right` under the same keys: each key must be a key of `right`, and what
/// `right` holds under it must equal what `left` holds.
pub open spec fn entries_equal(left: Seq<Entry>, right: Seq<Entry>, precision: u8, upto: nat) -> Finding
    decreases entries_size(left, left.len()) + entries_size(right, right.len()) + 1, upto,
{
    if upto == 0 || upto > left.len() {
        settled(true)
    } else {
        let entry = left[upto - 1];
        let place = place_of(right, entry.key, 0);
        let before = entries_equal(left, right, precision, (upto - 1) as nat);
        if 0 <= place < right.len() {
            proof {
                lemma_entry_smaller(left, left.len(), upto - 1);
                lemma_entry_smaller(right, right.len(), place);
            }
            joined(before, equality(right[place].value, entry.value, precision))
        } else {
            settled(false)
        }
    }
}

/// Two values that are both false in truth are equal at each of the three
/// precisions, whatever their kinds.
pub proof fn lemma_false_values_are_equal(a: Value, b: Value, precision: u8)
    requires
        truth(a) == Boolean::False,
        truth(b) == Boolean::False,
        precision <= 2,
    ensures
        equality(a, b, precision) == settled(true),
{
}

/// Entries that cannot be equal stay so when more entries are looked at.
pub proof fn lemma_stays_impossible(
    left: Seq<Entry>,
    right: Seq<Entry>,
    precision: u8,
    upto: nat,
    all: nat,
)
    requires
        upto <= all <= left.len(),
        !entries_equal(left, right, precision, upto).possible,
    ensures
        !entries_equal(left, right, precision, all).possible,
    decreases all - upto,
{
    if upto < all {
        lemma_stays_impossible(left, right, precision, upto, (all - 1) as nat);
    }
}

/// Whether a result of a comparison is a finding.
pub open spec fn found(result: Equality, finding: Finding) -> bool {
    result.possible == finding.possible && result.questions@ == finding.questions
}

/// A comparison that has ended.
fn done(equal: bool) -> (result: Equality)
    ensures
        found(result, settled(equal)),
{
    Equality { possible: equal, questions: Vec::new() }
}

/// A comparison that hangs on one question.
fn ask(question: Question) -> (result: Equality)
    ensures
        found(result, asking(question)),
{
    let mut questions = Vec::new();
    questions.push(question);
    Equality { possible: true, questions }
}

/// A text as loose comparison sees it.
fn loosen(text: &str) -> (r: String)
    ensures
        r@ == loose(text@),
{
    let lower = text.to_lowercase();
    lower.as_str().trim().to_owned()
}

/// Whether one of the two values is a boolean that is the truth of the
/// other.
fn agrees(a: &Value, b: &Value) -> (r: bool)
    ensures
        r == boolean_agrees(*a, *b),
{
    match (a, b) {
        (Value::Boolean(x), _) => b.bool() == *x,
        (_, Value::Boolean(y)) => a.bool() == *y,
        _ => false,
    }
}

/// Whether every key of `entries` is a key of `others`.
fn all_keys_within(entries: &Vec<Entry>, others: &Vec<Entry>) -> (r: bool)
    ensures
        r == keys_within(entries@, others@, entries@.len()),
{
    let mut at: usize = 0;
    while at < entries.len()
        invariant
            at <= entries@.len(),
            keys_within(entries@, others@, at as nat),
        decreases entries@.len() - at,
    {
        if find_key(others, &entries[at].key).is_none() {
            return false;
        }
        at = at + 1;
    }
    true
}

impl Equality {
    /// Whether nothing is left to ask.
    pub fn is_settled(&self) -> (r: bool)
        ensures
            r == (self.questions@.len() == 0),
    {
        self.questions.len() == 0
    }

    /// The result of the comparison as a value, once the host has answered:
    /// `answers` holds the answer to each question, in the order of the
    /// questions. True if the values can be equal and every answer says
    /// that they are, false otherwise; an answer that does not fit its
    /// question counts as saying that they are not.
    pub fn value(&self, answers: &Vec<Answer>) -> (v: Value)
        requires
            answers@.len() == self.questions@.len(),
        ensures
            v == Value::Boolean(
                if self.possible && forall|i: int|
                    0 <= i < answers@.len() ==> says_equal(self.questions@[i], answers@[i]) {
                    Boolean::True
                } else {
                    Boolean::False
                },
            ),
    {
        if !self.possible {
            return Value::Boolean(Boolean::False);
        }
        let mut at: usize = 0;
        while at < answers.len()
            invariant
                at <= answers@.len(),
                answers@.len() == self.questions@.len(),
                forall|i: int| 0 <= i < at ==> says_equal(self.questions@[i], answers@[i]),
            decreases answers@.len() - at,
        {
            let equal = match (&self.questions[at], answers[at]) {
                (Question::Near { .. }, Answer::Near(near)) => near,
                (Question::Reads { number, tolerant, .. }, Answer::Read { number: read, near }) => {
                    bits_eq(*number, read) || (*tolerant && near)
                },
                _ => false,
            };
            if !equal {
                return Value::Boolean(Boolean::False);
            }
            at = at + 1;
        }
        Value::Boolean(Boolean::True)
    }
}

impl Value {
    /// Compares two values at a precision: 0 by kind, 1 loosely, 2 by what
    /// they look like when written. Any other precision compares by kind,
    /// without the rule that two false values are equal.
    ///
    /// The result holds the questions that are left for the host; where it
    /// holds none, `possible` says whether the values are equal.
    pub fn eq(&self, rhs: &Value, precision: u8) -> (result: Equality)
        ensures
            found(result, equality(*self, *rhs, precision)),
            precision <= 2 && truth(*self) == Boolean::False && truth(*rhs) == Boolean::False
                ==> found(result, settled(true)),
        decreases size(*self) + size(*rhs),
    {
        if precision <= 2 && self.bool() == Boolean::False && rhs.bool() == Boolean::False {
            return done(true);
        }
        if precision == 1 && agrees(self, rhs) {
            return done(true);
        }
        if precision == 2 {
            let mine = self.to_string();
            let theirs = rhs.to_string();
            return done(mine == theirs);
        }
        if precision == 1 {
            let mine = loosen(self.to_string().as_str());
            let theirs = loosen(rhs.to_string().as_str());
            if mine == theirs {
                return done(true);
            }
        }
        match (self, rhs) {
            (Value::Number(x), Value::Number(y)) => {
                if bits_eq(x.bits, y.bits) {
                    done(true)
                } else if precision == 1 {
                    ask(Question::Near { lhs: x.bits, rhs: y.bits })
                } else {
                    done(false)
                }
            },
            (Value::String(x), Value::String(y)) => done(*x == *y),
            (Value::Keyword(x), Value::Keyword(y)) => done(*x == *y),
            (Value::String(text), Value::Number(n)) => ask(
                Question::Reads { text: text.clone(), number: n.bits, tolerant: precision == 1 },
            ),
            (Value::Number(n), Value::String(text)) => ask(
                Question::Reads { text: text.clone(), number: n.bits, tolerant: precision == 1 },
            ),
            (Value::Object(left), Value::Object(right)) => {
                let mut questions: Vec<Question> = Vec::new();
                let mut at: usize = 0;
                while at < left.len()
                    invariant
                        at <= left@.len(),
                        size(*self) == 1 + entries_size(left@, left@.len()),
                        size(*rhs) == 1 + entries_size(right@, right@.len()),
                        entries_equal(left@, right@, precision, at as nat) == (Finding {
                            possible: true,
                            questions: questions@,
                        }),
                        equality(*self, *rhs, precision) == joined(
                            entries_equal(left@, right@, precision, left@.len()),
                            settled(keys_within(right@, left@, right@.len())),
                        ),
                    decreases left@.len() - at,
                {
                    let place = match find_key(right, &left[at].key) {
                        Some(place) => place,
                        None => {
                            proof {
                                lemma_stays_impossible(
                                    left@,
                                    right@,
                                    precision,
                                    (at + 1) as nat,
                                    left@.len(),
                                );
                            }
                            return done(false);
                        },
                    };
                    proof {
                        lemma_entry_smaller(left@, left@.len(), at as int);
                        lemma_entry_smaller(right@, right@.len(), place as int);
                    }
                    let mut inner = right[place].value.eq(&left[at].value, precision);
                    if !inner.possible {
                        proof {
                            lemma_stays_impossible(
                                left@,
                                right@,
                                precision,
                                (at + 1) as nat,
                                left@.len(),
                            );
                        }
                        return done(false);
                    }
                    questions.append(&mut inner.questions);
                    at = at + 1;
                }
                if all_keys_within(right, left) {
                    Equality { possible: true, questions }
                } else {
                    done(false)
                }
            },
            _ => done(false),
        }
    }
}

} // verus!
