//! Three-valued truth.

use vstd::prelude::*;

verus! {

/// A truth value that may be undecided. The order of the variants is the
/// order in which booleans compare.
#[derive(Clone, Copy, Debug, PartialEq, Eq, Hash, PartialOrd, Ord, Structural)]
pub enum Boolean {
    True,
    False,
    Maybe,
}

/// Kleene conjunction: false if either side is false, true if both are true,
/// undecided otherwise.
pub open spec fn both(a: Boolean, b: Boolean) -> Boolean {
    if a == Boolean::False || b == Boolean::False {
        Boolean::False
    } else if a == Boolean::True && b == Boolean::True {
        Boolean::True
    } else {
        Boolean::Maybe
    }
}

/// Kleene disjunction: true if either side is true, false if both are false,
/// undecided otherwise.
pub open spec fn either(a: Boolean, b: Boolean) -> Boolean {
    if a == Boolean::True || b == Boolean::True {
        Boolean::True
    } else if a == Boolean::False && b == Boolean::False {
        Boolean::False
    } else {
        Boolean::Maybe
    }
}

/// True and false change places; undecided stays.
pub open spec fn flipped(a: Boolean) -> Boolean {
    match a {
        Boolean::True => Boolean::False,
        Boolean::False => Boolean::True,
        Boolean::Maybe => Boolean::Maybe,
    }
}

/// How a boolean is written.
pub open spec fn boolean_text(a: Boolean) -> Seq<char> {
    match a {
        Boolean::True => "true"@,
        Boolean::False => "false"@,
        Boolean::Maybe => "maybe"@,
    }
}

/// Place of a boolean among the booleans: true, false, maybe.
pub open spec fn boolean_rank(a: Boolean) -> u8 {
    match a {
        Boolean::True => 0,
        Boolean::False => 1,
        Boolean::Maybe => 2,
    }
}

impl Boolean {
    /// Kleene conjunction.
    pub fn and(self, other: Boolean) -> (r: Boolean)
        ensures
            r == both(self, other),
    {
        if self == Boolean::False || other == Boolean::False {
            Boolean::False
        } else if self == Boolean::True && other == Boolean::True {
            Boolean::True
        } else {
            Boolean::Maybe
        }
    }

    /// Kleene disjunction.
    pub fn or(self, other: Boolean) -> (r: Boolean)
        ensures
            r == either(self, other),
    {
        if self == Boolean::True || other == Boolean::True {
            Boolean::True
        } else if self == Boolean::False && other == Boolean::False {
            Boolean::False
        } else {
            Boolean::Maybe
        }
    }

    /// True becomes false and false true; undecided stays undecided.
    pub fn flip(self) -> (r: Boolean)
        ensures
            r == flipped(self),
    {
        match self {
            Boolean::True => Boolean::False,
            Boolean::False => Boolean::True,
            Boolean::Maybe => Boolean::Maybe,
        }
    }

    /// Place among the booleans, for ordering.
    pub fn rank(self) -> (r: u8)
        ensures
            r == boolean_rank(self),
    {
        match self {
            Boolean::True => 0,
            Boolean::False => 1,
            Boolean::Maybe => 2,
        }
    }

    /// The boolean as text: `true`, `false` or `maybe`.
    pub fn to_string(&self) -> (text: String)
        ensures
            text@ == boolean_text(*self),
    {
        match self {
            Boolean::True => "true".to_owned(),
            Boolean::False => "false".to_owned(),
            Boolean::Maybe => "maybe".to_owned(),
        }
    }
}

impl From<bool> for Boolean {
    fn from(value: bool) -> (r: Boolean) {
        if value {
            Boolean::True
        } else {
            Boolean::False
        }
    }
}

impl vstd::std_specs::convert::FromSpecImpl<bool> for Boolean {
    open spec fn obeys_from_spec() -> bool {
        true
    }

    open spec fn from_spec(value: bool) -> Boolean {
        if value {
            Boolean::True
        } else {
            Boolean::False
        }
    }
}

} // verus!
