//! What the scanner computes, stated over sequences of code points.
//!
//! Positions are indices into the source, counted in code points. Every
//! function here is total: a position outside the source behaves like the end
//! of input.

use vstd::prelude::*;
use crate::chars::white_space;
use crate::types::token::{SegmentView, TokenView};

verus! {

/// `$`, `£` or `¥`: before `{`, they open an interpolation.
pub open spec fn is_prefix_marker(c: char) -> bool {
    c == '$' || c == '\u{a3}' || c == '\u{a5}'
}

/// `€`, `円` or `₽`: after `}`, they turn the braces into an interpolation.
pub open spec fn is_suffix_marker(c: char) -> bool {
    c == '\u{20ac}' || c == '\u{5186}' || c == '\u{20bd}'
}

/// The character that closes a literal which `c` opens, if `c` opens one:
/// `"`, `'` and a backtick close themselves, either guillemet closes on the
/// other, and the low double quote closes on the right double quote.
pub open spec fn closing_quote(c: char) -> Option<char> {
    if c == '"' || c == '\'' || c == '`' {
        Some(c)
    } else if c == '\u{ab}' {
        Some('\u{bb}')
    } else if c == '\u{bb}' {
        Some('\u{ab}')
    } else if c == '\u{201e}' {
        Some('\u{201d}')
    } else {
        None
    }
}

/// The token that `c` is all by itself, if it is one.
pub open spec fn punctuation(c: char) -> Option<TokenView> {
    if c == '{' {
        Some(TokenView::LSquirrely)
    } else if c == '}' {
        Some(TokenView::RSquirrely)
    } else if c == '(' {
        Some(TokenView::LParen)
    } else if c == ')' {
        Some(TokenView::RParen)
    } else if c == '[' {
        Some(TokenView::LSquare)
    } else if c == ']' {
        Some(TokenView::RSquare)
    } else if c == ';' {
        Some(TokenView::Semicolon)
    } else if c == ':' {
        Some(TokenView::Colon)
    } else if c == '.' {
        Some(TokenView::Dot)
    } else if c == ',' {
        Some(TokenView::Comma)
    } else if c == '&' {
        Some(TokenView::And)
    } else if c == '|' {
        Some(TokenView::Or)
    } else {
        None
    }
}

/// The token that `c` is when no partner follows it, if `c` starts a
/// two-character operator.
pub open spec fn operator(c: char) -> Option<TokenView> {
    if c == '+' {
        Some(TokenView::Plus)
    } else if c == '-' {
        Some(TokenView::Tack)
    } else if c == '*' {
        Some(TokenView::Star)
    } else if c == '/' {
        Some(TokenView::Slash)
    } else if c == '%' {
        Some(TokenView::Percent)
    } else if c == '<' {
        Some(TokenView::LCaret)
    } else if c == '>' {
        Some(TokenView::RCaret)
    } else {
        None
    }
}

/// The token that `c` and a following `partner` are together, if they
/// combine.
pub open spec fn compound(c: char, partner: char) -> Option<TokenView> {
    if partner == '=' {
        if c == '+' {
            Some(TokenView::PlusEq)
        } else if c == '-' {
            Some(TokenView::TackEq)
        } else if c == '*' {
            Some(TokenView::StarEq)
        } else if c == '/' {
            Some(TokenView::SlashEq)
        } else if c == '%' {
            Some(TokenView::PercentEq)
        } else if c == '<' {
            Some(TokenView::LCaretEq)
        } else if c == '>' {
            Some(TokenView::RCaretEq)
        } else {
            None
        }
    } else if c == '+' && partner == '+' {
        Some(TokenView::PlusPlus)
    } else if c == '-' && partner == '-' {
        Some(TokenView::TackTack)
    } else if c == '-' && partner == '>' {
        Some(TokenView::Arrow)
    } else {
        None
    }
}

/// Whether runs of `c` are counted: `=`, `!` and `?`.
pub open spec fn is_counted(c: char) -> bool {
    c == '=' || c == '!' || c == '?'
}

/// The token for a run of `count` times `c`.
pub open spec fn counted(c: char, count: nat) -> TokenView {
    if c == '=' {
        TokenView::Equal(count)
    } else if c == '!' {
        TokenView::Bang(count)
    } else {
        TokenView::Question(count)
    }
}

/// Whether the scanner has a rule for `c` other than white space and
/// identifiers.
pub open spec fn is_reserved(c: char) -> bool {
    punctuation(c) is Some || operator(c) is Some || closing_quote(c) is Some || is_counted(c)
}

/// What a run is made of.
pub enum Run {
    /// Repetitions of one character.
    Of(char),
    /// White space.
    Space,
    /// Identifier text: neither reserved nor white space.
    Ident,
}

/// Whether `c` can stand in a run of the given kind.
pub open spec fn belongs(run: Run, c: char) -> bool {
    match run {
        Run::Of(same) => c == same,
        Run::Space => white_space(c),
        Run::Ident => !is_reserved(c) && !white_space(c),
    }
}

/// Length of the longest run of the given kind that starts at `from`.
pub open spec fn run_len(s: Seq<char>, from: int, run: Run) -> nat
    decreases s.len() - from,
{
    if 0 <= from < s.len() && belongs(run, s[from]) {
        1 + run_len(s, from + 1, run)
    } else {
        0
    }
}

/// Weight of white space: three for a line feed, one for anything else.
pub open spec fn weight(s: Seq<char>) -> nat
    decreases s.len(),
{
    if s.len() == 0 {
        0
    } else {
        weight(s.drop_last()) + if s.last() == '\n' {
            3nat
        } else {
            1nat
        }
    }
}

/// How many characters stand between `from` and the first `c` at or after
/// it; up to the end of `s` if there is none.
pub open spec fn distance(s: Seq<char>, from: int, c: char) -> nat
    decreases s.len() - from,
{
    if 0 <= from < s.len() && s[from] != c {
        1 + distance(s, from + 1, c)
    } else {
        0
    }
}

/// The pending literal text as segments: none if it is empty.
pub open spec fn flush(pending: Seq<char>) -> Seq<SegmentView> {
    if pending.len() == 0 {
        Seq::empty()
    } else {
        seq![SegmentView::String(pending)]
    }
}

/// The segment for `${name}`: none if the name is empty.
pub open spec fn named(name: Seq<char>) -> Seq<SegmentView> {
    if name.len() == 0 {
        Seq::empty()
    } else {
        seq![SegmentView::Ident(name)]
    }
}

/// The segment for a brace form `{inner}` that holds a `$`: split at the
/// first one.
pub open spec fn escudo(inner: Seq<char>) -> SegmentView {
    let at = distance(inner, 0, '$') as int;
    SegmentView::Escudo(inner.subrange(0, at), inner.subrange(at + 1, inner.len() as int))
}

/// A literal's segments and the position behind its closing quote.
pub struct Literal {
    pub segments: Seq<SegmentView>,
    pub next: int,
}

/// `rest` with `segments` put in front.
pub open spec fn after(segments: Seq<SegmentView>, rest: Option<Literal>) -> Option<Literal> {
    match rest {
        Some(literal) => Some(Literal { segments: segments + literal.segments, next: literal.next }),
        None => None,
    }
}

/// The body of a string literal from `at` up to the closing quote `end`, with
/// `pending` literal text already read. `None` when the input ends before the
/// literal, an interpolation or an escape does.
pub open spec fn body(s: Seq<char>, at: int, end: char, pending: Seq<char>) -> Option<Literal>
    decreases s.len() - at,
{
    if at < 0 || at >= s.len() {
        None
    } else if s[at] == end {
        Some(Literal { segments: flush(pending), next: at + 1 })
    } else if is_prefix_marker(s[at]) && at + 1 < s.len() && s[at + 1] == '{' {
        let close = at + 2 + distance(s, at + 2, '}');
        if close >= s.len() {
            None
        } else {
            after(
                flush(pending) + named(s.subrange(at + 2, close)),
                body(s, close + 1, end, Seq::empty()),
            )
        }
    } else if s[at] == '{' {
        let close = at + 1 + distance(s, at + 1, '}');
        let inner = s.subrange(at + 1, close);
        if close >= s.len() {
            None
        } else if close + 1 < s.len() && is_suffix_marker(s[close + 1]) {
            after(
                flush(pending).push(SegmentView::Ident(inner)),
                body(s, close + 2, end, Seq::empty()),
            )
        } else if distance(inner, 0, '$') < inner.len() {
            after(flush(pending).push(escudo(inner)), body(s, close + 1, end, Seq::empty()))
        } else {
            body(s, close + 1, end, pending + s.subrange(at, close + 1))
        }
    } else if s[at] == '\\' {
        if at + 1 >= s.len() {
            None
        } else {
            body(s, at + 2, end, pending.push(s[at]).push(s[at + 1]))
        }
    } else {
        body(s, at + 1, end, pending.push(s[at]))
    }
}

/// One token and the position behind it.
pub struct Step {
    pub token: TokenView,
    pub next: int,
}

/// The token that starts at `at`. `None` when there is no input left at `at`,
/// or when it ends inside the literal that starts there.
pub open spec fn token_at(s: Seq<char>, at: int) -> Option<Step> {
    if at < 0 || at >= s.len() {
        None
    } else if punctuation(s[at]) is Some {
        Some(Step { token: punctuation(s[at])->0, next: at + 1 })
    } else if operator(s[at]) is Some {
        if at + 1 < s.len() && compound(s[at], s[at + 1]) is Some {
            Some(Step { token: compound(s[at], s[at + 1])->0, next: at + 2 })
        } else {
            Some(Step { token: operator(s[at])->0, next: at + 1 })
        }
    } else if closing_quote(s[at]) is Some {
        match body(s, at + 1, closing_quote(s[at])->0, Seq::empty()) {
            Some(literal) => Some(
                Step { token: TokenView::String(literal.segments), next: literal.next },
            ),
            None => None,
        }
    } else if is_counted(s[at]) {
        let count = run_len(s, at, Run::Of(s[at]));
        Some(Step { token: counted(s[at], count), next: at + count })
    } else if white_space(s[at]) {
        let count = run_len(s, at, Run::Space);
        Some(Step { token: TokenView::Space(weight(s.subrange(at, at + count))), next: at + count })
    } else {
        let count = run_len(s, at, Run::Ident);
        Some(Step { token: TokenView::Ident(s.subrange(at, at + count)), next: at + count })
    }
}

/// A run ends within the source.
pub proof fn lemma_run_within(s: Seq<char>, from: int, run: Run)
    requires
        0 <= from <= s.len(),
    ensures
        from + run_len(s, from, run) <= s.len(),
    decreases s.len() - from,
{
    if from < s.len() && belongs(run, s[from]) {
        lemma_run_within(s, from + 1, run);
    }
}

/// The first `c` at or after `from` lies within the source, or at its end
/// if there is none.
pub proof fn lemma_distance_within(s: Seq<char>, from: int, c: char)
    requires
        0 <= from <= s.len(),
    ensures
        from + distance(s, from, c) <= s.len(),
        from + distance(s, from, c) < s.len() ==> s[from + distance(s, from, c)] == c,
        forall|k: int| from <= k < from + distance(s, from, c) ==> s[k] != c,
    decreases s.len() - from,
{
    if from < s.len() && s[from] != c {
        lemma_distance_within(s, from + 1, c);
    }
}

/// A literal's body ends behind where it starts, and within the source.
pub proof fn lemma_body_advances(s: Seq<char>, at: int, end: char, pending: Seq<char>)
    ensures
        body(s, at, end, pending) matches Some(literal) ==> at < literal.next <= s.len(),
    decreases s.len() - at,
{
    if at < 0 || at >= s.len() {
    } else if s[at] == end {
    } else if is_prefix_marker(s[at]) && at + 1 < s.len() && s[at + 1] == '{' {
        let close = at + 2 + distance(s, at + 2, '}');
        if close < s.len() {
            lemma_body_advances(s, close + 1, end, Seq::empty());
        }
    } else if s[at] == '{' {
        let close = at + 1 + distance(s, at + 1, '}');
        let inner = s.subrange(at + 1, close);
        if close >= s.len() {
        } else if close + 1 < s.len() && is_suffix_marker(s[close + 1]) {
            lemma_body_advances(s, close + 2, end, Seq::empty());
        } else if distance(inner, 0, '$') < inner.len() {
            lemma_body_advances(s, close + 1, end, Seq::empty());
        } else {
            lemma_body_advances(s, close + 1, end, pending + s.subrange(at, close + 1));
        }
    } else if s[at] == '\\' {
        if at + 1 < s.len() {
            lemma_body_advances(s, at + 2, end, pending.push(s[at]).push(s[at + 1]));
        }
    } else {
        lemma_body_advances(s, at + 1, end, pending.push(s[at]));
    }
}

/// Every token takes at least one character, and none reaches past the end.
pub proof fn lemma_token_advances(s: Seq<char>, at: int)
    ensures
        token_at(s, at) matches Some(step) ==> at < step.next <= s.len(),
{
    if 0 <= at < s.len() {
        lemma_run_within(s, at, Run::Of(s[at]));
        lemma_run_within(s, at, Run::Space);
        lemma_run_within(s, at, Run::Ident);
        if closing_quote(s[at]) is Some {
            lemma_body_advances(s, at + 1, closing_quote(s[at])->0, Seq::empty());
        }
    }
}

/// The tokens of `s` from `at` on, or the position of the literal that the
/// input ends in.
pub open spec fn tokens_from(s: Seq<char>, at: int) -> Result<Seq<TokenView>, int>
    decreases s.len() - at,
    via tokens_from_terminates
{
    if at < 0 || at >= s.len() {
        Ok(Seq::empty())
    } else {
        match token_at(s, at) {
            None => Err(at),
            Some(step) => match tokens_from(s, step.next) {
                Ok(rest) => Ok(seq![step.token] + rest),
                Err(position) => Err(position),
            },
        }
    }
}

#[via_fn]
proof fn tokens_from_terminates(s: Seq<char>, at: int) {
    lemma_token_advances(s, at);
}

/// The tokens of a whole source text.
pub open spec fn tokens(s: Seq<char>) -> Result<Seq<TokenView>, int> {
    tokens_from(s, 0)
}

} // verus!
