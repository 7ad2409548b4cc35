//! Reserved words.

use vstd::prelude::*;

verus! {

/// A reserved word as a value. The order of the variants is the order in
/// which keywords compare.
#[derive(Clone, Copy, Debug, PartialEq, Eq, Hash, PartialOrd, Ord, Structural)]
pub enum Keyword {
    Const,
    Delete,
    Eval,
    Function,
    If,
    Var,
}

/// How a keyword is written.
pub open spec fn keyword_text(word: Keyword) -> Seq<char> {
    match word {
        Keyword::Const => "const"@,
        Keyword::Delete => "delete"@,
        Keyword::Eval => "eval"@,
        Keyword::Function => "function"@,
        Keyword::If => "if"@,
        Keyword::Var => "var"@,
    }
}

/// Place of a keyword among the keywords.
pub open spec fn keyword_rank(word: Keyword) -> u8 {
    match word {
        Keyword::Const => 0,
        Keyword::Delete => 1,
        Keyword::Eval => 2,
        Keyword::Function => 3,
        Keyword::If => 4,
        Keyword::Var => 5,
    }
}

impl Keyword {
    /// Place among the keywords, for ordering.
    pub fn rank(self) -> (r: u8)
        ensures
            r == keyword_rank(self),
    {
        match self {
            Keyword::Const => 0,
            Keyword::Delete => 1,
            Keyword::Eval => 2,
            Keyword::Function => 3,
            Keyword::If => 4,
            Keyword::Var => 5,
        }
    }

    /// The keyword as text, in lower case.
    pub fn to_string(&self) -> (text: String)
        ensures
            text@ == keyword_text(*self),
    {
        match self {
            Keyword::Const => "const".to_owned(),
            Keyword::Delete => "delete".to_owned(),
            Keyword::Eval => "eval".to_owned(),
            Keyword::Function => "function".to_owned(),
            Keyword::If => "if".to_owned(),
            Keyword::Var => "var".to_owned(),
        }
    }
}

} // verus!
