//! The scanner: source text to tokens.
//!
//! A single pass with one character of lookahead. White space is kept, as
//! [`Token::Space`] with a weight; the only failure is input that ends where
//! a token must start or inside a string literal.

use vstd::prelude::*;
use crate::chars::code_points;
use crate::lexer::grammar::{
    after, belongs, body, closing_quote, compound, distance, escudo, flush, is_prefix_marker,
    is_suffix_marker, lemma_run_within, lemma_token_advances, named, operator, punctuation,
    run_len, token_at, tokens, tokens_from, weight, Literal, Run,
};
use crate::types::token::{segment_views, token_views, SegmentView, StringSegment, Token, TokenView};

pub mod grammar;
pub mod laws;

verus! {

/// Why a source text has no tokens.
#[derive(Clone, Copy, Debug, PartialEq, Eq, Structural)]
pub enum LexError {
    /// The input ended where a token had to start, or inside the string
    /// literal that starts at `position` (counted in code points).
    UnexpectedEnd { position: usize },
}

impl LexError {
    /// The message for a reader.
    pub fn message(&self) -> (text: String)
        ensures
            text@ == "Unexpected end of file"@,
    {
        "Unexpected end of file".to_owned()
    }
}

/// The characters of `chars` from `from` up to `to`, as a string.
fn text_between(chars: &[char], from: usize, to: usize) -> (text: String)
    requires
        from <= to <= chars@.len(),
    ensures
        text@ == chars@.subrange(from as int, to as int),
{
    let mut text = String::new();
    let mut at: usize = from;
    while at < to
        invariant
            from <= at <= to <= chars@.len(),
            text@ == chars@.subrange(from as int, at as int),
        decreases to - at,
    {
        text.push(chars[at]);
        at = at + 1;
    }
    text
}

/// The position of the first `c` at or after `from`; the length of `chars`
/// if there is none.
fn find_char(chars: &[char], from: usize, c: char) -> (at: usize)
    requires
        from <= chars@.len(),
    ensures
        at == from + distance(chars@, from as int, c),
        at <= chars@.len(),
{
    let mut at: usize = from;
    while at < chars.len() && chars[at] != c
        invariant
            from <= at <= chars@.len(),
            from + distance(chars@, from as int, c) == at + distance(chars@, at as int, c),
        decreases chars@.len() - at,
    {
        at = at + 1;
    }
    at
}

/// Counts the `tok` that stand in a row from `start` on.
pub fn count_char(chars: &[char], start: usize, tok: char) -> (count: usize)
    ensures
        count == run_len(chars@, start as int, Run::Of(tok)),
{
    if start >= chars.len() {
        return 0;
    }
    let mut at: usize = start;
    while at < chars.len() && chars[at] == tok
        invariant
            start <= at <= chars@.len(),
            run_len(chars@, start as int, Run::Of(tok)) == (at - start) + run_len(
                chars@,
                at as int,
                Run::Of(tok),
            ),
        decreases chars@.len() - at,
    {
        at = at + 1;
    }
    at - start
}

/// The position of the first `c` in `chars` from `from` up to `to`; `to` if
/// there is none.
fn find_between(chars: &[char], from: usize, to: usize, c: char) -> (at: usize)
    requires
        from <= to <= chars@.len(),
    ensures
        at == from + distance(chars@.subrange(from as int, to as int), 0, c),
        from <= at <= to,
{
    let ghost part = chars@.subrange(from as int, to as int);
    let mut at: usize = from;
    while at < to && chars[at] != c
        invariant
            from <= at <= to <= chars@.len(),
            part == chars@.subrange(from as int, to as int),
            distance(part, 0, c) == (at - from) + distance(part, at - from, c),
        decreases to - at,
    {
        at = at + 1;
    }
    at
}

/// Appends the characters of `chars` from `from` up to `to` to `text`.
fn append_between(text: &mut String, chars: &[char], from: usize, to: usize)
    requires
        from <= to <= chars@.len(),
    ensures
        final(text)@ == old(text)@ + chars@.subrange(from as int, to as int),
{
    let mut at: usize = from;
    while at < to
        invariant
            from <= at <= to <= chars@.len(),
            text@ == old(text)@ + chars@.subrange(from as int, at as int),
        decreases to - at,
    {
        text.push(chars[at]);
        at = at + 1;
    }
}

/// The views of segments with one more at the end.
proof fn lemma_segment_views_push(segments: Seq<StringSegment>, segment: StringSegment)
    ensures
        segment_views(segments.push(segment)) == segment_views(segments).push(segment@),
{
}

/// The views of tokens with one more at the end.
proof fn lemma_token_views_push(stream: Seq<Token>, token: Token)
    ensures
        token_views(stream.push(token)) == token_views(stream).push(token@),
{
}

/// Putting segments in front one group after the other is putting both in
/// front at once.
proof fn lemma_after_twice(
    first: Seq<SegmentView>,
    second: Seq<SegmentView>,
    rest: Option<Literal>,
)
    ensures
        after(first, after(second, rest)) == after(first + second, rest),
{
    match rest {
        Some(literal) => {
            assert(first + (second + literal.segments) =~= (first + second) + literal.segments);
        },
        None => {},
    }
}

/// Putting nothing in front changes nothing.
proof fn lemma_after_nothing(rest: Option<Literal>)
    ensures
        after(Seq::empty(), rest) == rest,
{
}

/// Ends the pending literal text: it becomes a segment unless it is empty.
fn flush_into(segments: &mut Vec<StringSegment>, pending: String)
    ensures
        segment_views(final(segments)@) == segment_views(old(segments)@) + flush(pending@),
{
    if !pending.as_str().is_empty() {
        proof {
            lemma_segment_views_push(segments@, StringSegment::String(pending));
        }
        segments.push(StringSegment::String(pending));
    }
}

/// Whether `c` is `$`, `£` or `¥`.
fn prefix_marker(c: char) -> (r: bool)
    ensures
        r == is_prefix_marker(c),
{
    c == '$' || c == '\u{a3}' || c == '\u{a5}'
}

/// Whether `c` is `€`, `円` or `₽`.
fn suffix_marker(c: char) -> (r: bool)
    ensures
        r == is_suffix_marker(c),
{
    c == '\u{20ac}' || c == '\u{5186}' || c == '\u{20bd}'
}

/// Scans the body of a string literal from `start`, the position behind the
/// opening quote, up to the closing quote `end`. Gives the literal as a
/// [`Token::String`] and the position behind the closing quote.
///
/// Fails when the input ends before the closing quote, inside an
/// interpolation or behind a backslash.
pub fn lex_string(chars: &[char], start: usize, end: char) -> (result: Result<
    (Token, usize),
    LexError,
>)
    ensures
        match body(chars@, start as int, end, Seq::empty()) {
            Some(literal) => result matches Ok((token, next)) && token@ == TokenView::String(
                literal.segments,
            ) && next == literal.next,
            None => result == Err::<(Token, usize), LexError>(
                LexError::UnexpectedEnd { position: start },
            ),
        },
{
    let ghost s = chars@;
    let mut segments: Vec<StringSegment> = Vec::new();
    let mut pending = String::new();
    let mut at: usize = start;
    proof {
        lemma_after_nothing(body(s, start as int, end, Seq::empty()));
    }
    loop
        invariant
            s == chars@,
            start <= at,
            body(s, start as int, end, Seq::empty()) == after(
                segment_views(segments@),
                body(s, at as int, end, pending@),
            ),
        decreases s.len() - at,
    {
        if at >= chars.len() {
            return Err(LexError::UnexpectedEnd { position: start });
        }
        let c = chars[at];
        let ghost before = segment_views(segments@);
        if c == end {
            flush_into(&mut segments, pending);
            return Ok((Token::String(segments), at + 1));
        } else if prefix_marker(c) && at + 1 < chars.len() && chars[at + 1] == '{' {
            let close = find_char(chars, at + 2, '}');
            if close >= chars.len() {
                return Err(LexError::UnexpectedEnd { position: start });
            }
            let name = text_between(chars, at + 2, close);
            flush_into(&mut segments, pending);
            if !name.as_str().is_empty() {
                proof {
                    lemma_segment_views_push(segments@, StringSegment::Ident(name));
                }
                segments.push(StringSegment::Ident(name));
            }
            proof {
                let added = flush(pending@) + named(name@);
                assert(segment_views(segments@) =~= before + added);
                lemma_after_twice(before, added, body(s, close + 1, end, Seq::empty()));
            }
            pending = String::new();
            at = close + 1;
        } else if c == '{' {
            let close = find_char(chars, at + 1, '}');
            if close >= chars.len() {
                return Err(LexError::UnexpectedEnd { position: start });
            }
            if close + 1 < chars.len() && suffix_marker(chars[close + 1]) {
                let name = text_between(chars, at + 1, close);
                flush_into(&mut segments, pending);
                proof {
                    lemma_segment_views_push(segments@, StringSegment::Ident(name));
                }
                segments.push(StringSegment::Ident(name));
                proof {
                    let added = flush(pending@).push(SegmentView::Ident(name@));
                    lemma_after_twice(before, added, body(s, close + 2, end, Seq::empty()));
                }
                pending = String::new();
                at = close + 2;
            } else {
                let ghost inner = s.subrange(at + 1, close as int);
                let split = find_between(chars, at + 1, close, '$');
                if split < close {
                    let left = text_between(chars, at + 1, split);
                    let right = text_between(chars, split + 1, close);
                    flush_into(&mut segments, pending);
                    proof {
                        lemma_segment_views_push(segments@, StringSegment::Escudo(left, right));
                    }
                    segments.push(StringSegment::Escudo(left, right));
                    proof {
                        let cut = distance(inner, 0, '$') as int;
                        assert(left@ =~= inner.subrange(0, cut));
                        assert(right@ =~= inner.subrange(cut + 1, inner.len() as int));
                        let added = flush(pending@).push(escudo(inner));
                        lemma_after_twice(before, added, body(s, close + 1, end, Seq::empty()));
                    }
                    pending = String::new();
                } else {
                    append_between(&mut pending, chars, at, close + 1);
                }
                at = close + 1;
            }
        } else if c == '\\' {
            if at + 1 >= chars.len() {
                return Err(LexError::UnexpectedEnd { position: start });
            }
            pending.push(c);
            pending.push(chars[at + 1]);
            at = at + 2;
        } else {
            pending.push(c);
            at = at + 1;
        }
    }
}

/// Whether an optional token stands for the optional view.
pub open spec fn same_token(token: Option<Token>, view: Option<TokenView>) -> bool {
    match (token, view) {
        (Some(t), Some(v)) => t@ == v,
        (None, None) => true,
        _ => false,
    }
}

/// The token that `c` is all by itself, if it is one.
fn single(c: char) -> (token: Option<Token>)
    ensures
        same_token(token, punctuation(c)),
{
    match c {
        '{' => Some(Token::LSquirrely),
        '}' => Some(Token::RSquirrely),
        '(' => Some(Token::LParen),
        ')' => Some(Token::RParen),
        '[' => Some(Token::LSquare),
        ']' => Some(Token::RSquare),
        ';' => Some(Token::Semicolon),
        ':' => Some(Token::Colon),
        '.' => Some(Token::Dot),
        ',' => Some(Token::Comma),
        '&' => Some(Token::And),
        '|' => Some(Token::Or),
        _ => None,
    }
}

/// The token that `c` is when no partner follows, if it starts an operator.
fn lone(c: char) -> (token: Option<Token>)
    ensures
        same_token(token, operator(c)),
{
    match c {
        '+' => Some(Token::Plus),
        '-' => Some(Token::Tack),
        '*' => Some(Token::Star),
        '/' => Some(Token::Slash),
        '%' => Some(Token::Percent),
        '<' => Some(Token::LCaret),
        '>' => Some(Token::RCaret),
        _ => None,
    }
}

/// The token that `c` and the following `partner` are together, if any.
fn paired(c: char, partner: char) -> (token: Option<Token>)
    ensures
        same_token(token, compound(c, partner)),
{
    if partner == '=' {
        match c {
            '+' => Some(Token::PlusEq),
            '-' => Some(Token::TackEq),
            '*' => Some(Token::StarEq),
            '/' => Some(Token::SlashEq),
            '%' => Some(Token::PercentEq),
            '<' => Some(Token::LCaretEq),
            '>' => Some(Token::RCaretEq),
            _ => None,
        }
    } else if c == '+' && partner == '+' {
        Some(Token::PlusPlus)
    } else if c == '-' && partner == '-' {
        Some(Token::TackTack)
    } else if c == '-' && partner == '>' {
        Some(Token::Arrow)
    } else {
        None
    }
}

/// The character that closes a literal which `c` opens, if `c` opens one.
fn closing(c: char) -> (end: Option<char>)
    ensures
        end == closing_quote(c),
{
    match c {
        '"' | '\'' | '`' => Some(c),
        '\u{ab}' => Some('\u{bb}'),
        '\u{bb}' => Some('\u{ab}'),
        '\u{201e}' => Some('\u{201d}'),
        _ => None,
    }
}

/// Whether `c` can stand in an identifier.
fn ident_char(c: char) -> (r: bool)
    ensures
        r == belongs(Run::Ident, c),
{
    single(c).is_none() && lone(c).is_none() && closing(c).is_none() && c != '=' && c != '!' && c
        != '?' && !c.is_whitespace()
}

/// The white space that starts at `start`: its weight and the position
/// behind it.
fn lex_space(chars: &[char], start: usize) -> (found: (u128, usize))
    requires
        start <= chars@.len(),
    ensures
        found.1 == start + run_len(chars@, start as int, Run::Space),
        found.0 == weight(chars@.subrange(start as int, found.1 as int)),
{
    let mut total: u128 = 0;
    let mut at: usize = start;
    while at < chars.len() && chars[at].is_whitespace()
        invariant
            start <= at <= chars@.len(),
            run_len(chars@, start as int, Run::Space) == (at - start) + run_len(
                chars@,
                at as int,
                Run::Space,
            ),
            total == weight(chars@.subrange(start as int, at as int)),
            total <= 3 * (at - start),
        decreases chars@.len() - at,
    {
        assert(chars@.subrange(start as int, at + 1).drop_last() =~= chars@.subrange(
            start as int,
            at as int,
        ));
        if chars[at] == '\n' {
            total = total + 3;
        } else {
            total = total + 1;
        }
        at = at + 1;
    }
    (total, at)
}

/// The identifier that starts at `start`: its text and the position behind
/// it.
fn lex_ident(chars: &[char], start: usize) -> (found: (String, usize))
    requires
        start <= chars@.len(),
    ensures
        found.1 == start + run_len(chars@, start as int, Run::Ident),
        found.0@ == chars@.subrange(start as int, found.1 as int),
{
    let mut at: usize = start;
    while at < chars.len() && ident_char(chars[at])
        invariant
            start <= at <= chars@.len(),
            run_len(chars@, start as int, Run::Ident) == (at - start) + run_len(
                chars@,
                at as int,
                Run::Ident,
            ),
        decreases chars@.len() - at,
    {
        at = at + 1;
    }
    (text_between(chars, start, at), at)
}

/// Scans the token that starts at `at`. Gives the token and the position
/// behind it.
///
/// Fails when no input is left at `at`, or when the input ends inside the
/// string literal that starts there.
pub fn inner_tokenize(chars: &[char], at: usize) -> (result: Result<(Token, usize), LexError>)
    ensures
        match token_at(chars@, at as int) {
            Some(step) => result matches Ok((token, next)) && token@ == step.token && next
                == step.next,
            None => result == Err::<(Token, usize), LexError>(
                LexError::UnexpectedEnd { position: at },
            ),
        },
{
    if at >= chars.len() {
        return Err(LexError::UnexpectedEnd { position: at });
    }
    let c = chars[at];
    if let Some(token) = single(c) {
        return Ok((token, at + 1));
    }
    if let Some(alone) = lone(c) {
        if at + 1 < chars.len() {
            if let Some(both) = paired(c, chars[at + 1]) {
                return Ok((both, at + 2));
            }
        }
        return Ok((alone, at + 1));
    }
    if let Some(end) = closing(c) {
        return match lex_string(chars, at + 1, end) {
            Ok(found) => Ok(found),
            Err(_) => Err(LexError::UnexpectedEnd { position: at }),
        };
    }
    if c == '=' || c == '!' || c == '?' {
        let count = count_char(chars, at, c);
        proof {
            lemma_run_within(chars@, at as int, Run::Of(c));
        }
        let token = if c == '=' {
            Token::Equal(count)
        } else if c == '!' {
            Token::Bang(count)
        } else {
            Token::Question(count)
        };
        return Ok((token, at + count));
    }
    if c.is_whitespace() {
        let (total, next) = lex_space(chars, at);
        Ok((Token::Space(total), next))
    } else {
        let (text, next) = lex_ident(chars, at);
        Ok((Token::Ident(text), next))
    }
}

/// `rest` with `tokens` put in front.
pub open spec fn behind(front: Seq<TokenView>, rest: Result<Seq<TokenView>, int>) -> Result<
    Seq<TokenView>,
    int,
> {
    match rest {
        Ok(more) => Ok(front + more),
        Err(position) => Err(position),
    }
}

/// Turns source text into its tokens.
///
/// Fails only when the input ends inside a string literal: before its
/// closing quote, inside an interpolation, or behind a backslash. The error
/// holds the position of the literal's opening quote.
pub fn tokenize(source: &str) -> (result: Result<Vec<Token>, LexError>)
    ensures
        match tokens(source@) {
            Ok(views) => result matches Ok(stream) && token_views(stream@) == views,
            Err(position) => result matches Err(LexError::UnexpectedEnd { position: found })
                && found == position,
        },
{
    let points = code_points(source);
    let chars = points.as_slice();
    let ghost s = chars@;
    let mut stream: Vec<Token> = Vec::new();
    let mut at: usize = 0;
    while at < chars.len()
        invariant
            s == chars@,
            s == source@,
            at <= s.len(),
            tokens(s) == behind(token_views(stream@), tokens_from(s, at as int)),
        decreases s.len() - at,
    {
        let ghost before = token_views(stream@);
        proof {
            lemma_token_advances(s, at as int);
        }
        match inner_tokenize(chars, at) {
            Ok((token, next)) => {
                proof {
                    lemma_token_views_push(stream@, token);
                    match tokens_from(s, next as int) {
                        Ok(more) => {
                            assert(before + (seq![token@] + more) =~= before.push(token@) + more);
                        },
                        Err(_) => {},
                    }
                }
                stream.push(token);
                at = next;
            },
            Err(error) => {
                return Err(error);
            },
        }
    }
    Ok(stream)
}

} // verus!
