//! Laws of the scanner, proved from its grammar.

use vstd::prelude::*;
use crate::chars::white_space;
use crate::lexer::grammar::{
    body, closing_quote, counted, distance, flush, is_counted, is_prefix_marker, is_reserved,
    is_suffix_marker, lemma_distance_within, run_len, token_at, tokens, tokens_from, weight,
    Literal, Run, Step,
};
use crate::types::token::{SegmentView, TokenView};

verus! {

/// The literal text of segments, one piece after the other; interpolations
/// add nothing.
pub open spec fn literal_text(segments: Seq<SegmentView>) -> Seq<char>
    decreases segments.len(),
{
    if segments.len() == 0 {
        Seq::empty()
    } else {
        literal_text(segments.drop_last()) + match segments.last() {
            SegmentView::String(text) => text,
            _ => Seq::empty(),
        }
    }
}

/// Whether the characters of `s` from `from` up to `to` are the body of a
/// literal closed at `to` by `end` that holds no interpolation: no closing
/// quote before `to`, no backslash without a character behind it, and no
/// brace form other than plain `{...}` without `$` inside and without a
/// currency sign before or behind it.
pub open spec fn is_plain(s: Seq<char>, from: int, to: int, end: char) -> bool
    decreases to - from,
{
    if from >= to {
        from == to
    } else if from < 0 || to >= s.len() {
        false
    } else if s[from] == end {
        false
    } else if is_prefix_marker(s[from]) && s[from + 1] == '{' {
        false
    } else if s[from] == '{' {
        let close = from + 1 + distance(s, from + 1, '}');
        let inner = s.subrange(from + 1, close);
        close < to && !is_suffix_marker(s[close + 1]) && distance(inner, 0, '$') >= inner.len()
            && is_plain(s, close + 1, to, end)
    } else if s[from] == '\\' {
        from + 1 < to && is_plain(s, from + 2, to, end)
    } else {
        is_plain(s, from + 1, to, end)
    }
}

/// The literal text of flushed text is that text.
pub proof fn lemma_literal_text_of_flush(text: Seq<char>)
    ensures
        literal_text(flush(text)) == text,
{
    if text.len() > 0 {
        assert(literal_text(flush(text).drop_last()) =~= Seq::<char>::empty());
    }
}

/// The body of a literal without interpolation is one run of text: what was
/// pending, then the characters up to the closing quote.
pub proof fn lemma_plain_body(s: Seq<char>, from: int, to: int, end: char, pending: Seq<char>)
    requires
        0 <= from <= to < s.len(),
        s[to] == end,
        is_plain(s, from, to, end),
    ensures
        body(s, from, end, pending) == Some(
            Literal { segments: flush(pending + s.subrange(from, to)), next: to + 1 },
        ),
    decreases to - from,
{
    if from == to {
        // nothing is left to read
    } else if s[from] == '{' {
        lemma_distance_within(s, from + 1, '}');
        let close = from + 1 + distance(s, from + 1, '}');
        let grown = pending + s.subrange(from, close + 1);
        lemma_plain_body(s, close + 1, to, end, grown);
        assert(grown + s.subrange(close + 1, to) =~= pending + s.subrange(from, to));
    } else if s[from] == '\\' {
        let grown = pending.push(s[from]).push(s[from + 1]);
        lemma_plain_body(s, from + 2, to, end, grown);
        assert(grown + s.subrange(from + 2, to) =~= pending + s.subrange(from, to));
    } else {
        let grown = pending.push(s[from]);
        lemma_plain_body(s, from + 1, to, end, grown);
        assert(grown + s.subrange(from + 1, to) =~= pending + s.subrange(from, to));
    }
}

/// Round trip inside a source: a string literal from `at` to `to` without
/// interpolation is one token whose literal text is exactly what stands
/// between the quotes.
pub proof fn lemma_plain_literal(s: Seq<char>, at: int, to: int)
    requires
        0 <= at < to < s.len(),
        closing_quote(s[at]) == Some(s[to]),
        is_plain(s, at + 1, to, s[to]),
    ensures
        token_at(s, at) == Some(
            Step { token: TokenView::String(flush(s.subrange(at + 1, to))), next: to + 1 },
        ),
        literal_text(flush(s.subrange(at + 1, to))) == s.subrange(at + 1, to),
{
    lemma_plain_body(s, at + 1, to, s[to], Seq::empty());
    lemma_literal_text_of_flush(s.subrange(at + 1, to));
}

/// Round trip: a source that is one string literal without interpolation
/// has exactly one token, a string, and the literal text of its segments is
/// the content between the quotes.
pub proof fn lemma_round_trip(open: char, content: Seq<char>)
    requires
        closing_quote(open) is Some,
        is_plain(
            seq![open] + content + seq![closing_quote(open)->0],
            1,
            content.len() as int + 1,
            closing_quote(open)->0,
        ),
    ensures
        tokens(seq![open] + content + seq![closing_quote(open)->0]) == Ok::<Seq<TokenView>, int>(
            seq![TokenView::String(flush(content))],
        ),
        literal_text(flush(content)) == content,
{
    let s = seq![open] + content + seq![closing_quote(open)->0];
    let to = content.len() as int + 1;
    assert(s.subrange(1, to) =~= content);
    lemma_plain_literal(s, 0, to);
    assert(tokens_from(s, to + 1) == Ok::<Seq<TokenView>, int>(Seq::empty()));
}

/// No character for which the scanner has a rule of its own is white
/// space, so white space is found the same before or behind those rules.
pub proof fn lemma_reserved_is_not_white_space(c: char)
    requires
        is_reserved(c),
    ensures
        !white_space(c),
{
}

/// A source of `n` spaces and nothing else is one token of white space
/// with weight `n`.
pub proof fn lemma_spaces_weigh_one_each(n: nat)
    requires
        n >= 1,
    ensures
        tokens(Seq::new(n, |i: int| ' ')) == Ok::<Seq<TokenView>, int>(seq![TokenView::Space(n)]),
{
    let s = Seq::new(n, |i: int| ' ');
    lemma_space_run(n, 0);
    lemma_weight_of_spaces(n);
    assert(s.subrange(0, n as int) =~= s);
    assert(tokens_from(s, n as int) == Ok::<Seq<TokenView>, int>(Seq::empty()));
}

/// In a text of spaces the run of white space from `from` reaches the end.
proof fn lemma_space_run(n: nat, from: int)
    requires
        0 <= from <= n,
    ensures
        run_len(Seq::new(n, |i: int| ' '), from, Run::Space) == n - from,
    decreases n - from,
{
    if from < n {
        lemma_space_run(n, from + 1);
    }
}

/// `n` spaces weigh `n`.
proof fn lemma_weight_of_spaces(n: nat)
    ensures
        weight(Seq::new(n, |i: int| ' ')) == n,
    decreases n,
{
    if n > 0 {
        lemma_weight_of_spaces((n - 1) as nat);
        assert(Seq::new(n, |i: int| ' ').drop_last() =~= Seq::new((n - 1) as nat, |i: int| ' '));
    }
}

/// In a text made of one character only, the run from `from` reaches the
/// end.
proof fn lemma_run_of_repeated(c: char, n: nat, from: int)
    requires
        0 <= from <= n,
    ensures
        run_len(Seq::new(n, |i: int| c), from, Run::Of(c)) == n - from,
    decreases n - from,
{
    if from < n {
        lemma_run_of_repeated(c, n, from + 1);
    }
}

/// A run of `n` times `=`, `!` or `?` and nothing else is exactly one token,
/// which carries `n`.
pub proof fn lemma_run_is_one_token(c: char, n: nat)
    requires
        is_counted(c),
        n >= 1,
    ensures
        tokens(Seq::new(n, |i: int| c)) == Ok::<Seq<TokenView>, int>(seq![counted(c, n)]),
{
    let s = Seq::new(n, |i: int| c);
    lemma_run_of_repeated(c, n, 0);
    assert(tokens_from(s, n as int) == Ok::<Seq<TokenView>, int>(Seq::empty()));
}

/// `n` times `=` and nothing else is exactly one `Equal` token with count
/// `n`.
pub proof fn lemma_equals_run(n: nat)
    requires
        n >= 1,
    ensures
        tokens(Seq::new(n, |i: int| '=')) == Ok::<Seq<TokenView>, int>(seq![TokenView::Equal(n)]),
{
    lemma_run_is_one_token('=', n);
}

} // verus!
