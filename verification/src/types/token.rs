//! Tokens and the segments of a string literal.

use vstd::prelude::*;

verus! {

/// One piece of a string literal, in source order.
#[derive(Clone, Debug, PartialEq, Eq)]
pub enum StringSegment {
    /// Literal text, kept exactly as written (escapes are not interpreted).
    String(String),
    /// A name to interpolate.
    Ident(String),
    /// A `{left$right}` directive.
    Escudo(String, String),
}

/// Mathematical form of a [`StringSegment`].
pub enum SegmentView {
    String(Seq<char>),
    Ident(Seq<char>),
    Escudo(Seq<char>, Seq<char>),
}

impl View for StringSegment {
    type V = SegmentView;

    open spec fn view(&self) -> SegmentView {
        match self {
            StringSegment::String(text) => SegmentView::String(text@),
            StringSegment::Ident(name) => SegmentView::Ident(name@),
            StringSegment::Escudo(left, right) => SegmentView::Escudo(left@, right@),
        }
    }
}

/// One lexical unit.
#[derive(Clone, Debug, PartialEq, Eq)]
pub enum Token {
    LSquirrely,
    RSquirrely,
    LParen,
    RParen,
    LSquare,
    RSquare,
    Semicolon,
    Colon,
    Dot,
    Comma,
    And,
    Or,
    Plus,
    PlusEq,
    PlusPlus,
    Tack,
    TackEq,
    TackTack,
    Arrow,
    Star,
    StarEq,
    Slash,
    SlashEq,
    Percent,
    PercentEq,
    LCaret,
    LCaretEq,
    RCaret,
    RCaretEq,
    /// A run of `=`, with its length.
    Equal(usize),
    /// A run of `!`, with its length.
    Bang(usize),
    /// A run of `?`, with its length.
    Question(usize),
    /// A string literal, as its segments.
    String(Vec<StringSegment>),
    /// A run of white space, with its weight.
    Space(u128),
    /// Any other text.
    Ident(String),
}

/// Mathematical form of a [`Token`].
pub enum TokenView {
    LSquirrely,
    RSquirrely,
    LParen,
    RParen,
    LSquare,
    RSquare,
    Semicolon,
    Colon,
    Dot,
    Comma,
    And,
    Or,
    Plus,
    PlusEq,
    PlusPlus,
    Tack,
    TackEq,
    TackTack,
    Arrow,
    Star,
    StarEq,
    Slash,
    SlashEq,
    Percent,
    PercentEq,
    LCaret,
    LCaretEq,
    RCaret,
    RCaretEq,
    Equal(nat),
    Bang(nat),
    Question(nat),
    String(Seq<SegmentView>),
    Space(nat),
    Ident(Seq<char>),
}

/// The segments of a literal, each by its view.
pub open spec fn segment_views(segments: Seq<StringSegment>) -> Seq<SegmentView> {
    segments.map_values(|segment: StringSegment| segment@)
}

impl View for Token {
    type V = TokenView;

    open spec fn view(&self) -> TokenView {
        match self {
            Token::LSquirrely => TokenView::LSquirrely,
            Token::RSquirrely => TokenView::RSquirrely,
            Token::LParen => TokenView::LParen,
            Token::RParen => TokenView::RParen,
            Token::LSquare => TokenView::LSquare,
            Token::RSquare => TokenView::RSquare,
            Token::Semicolon => TokenView::Semicolon,
            Token::Colon => TokenView::Colon,
            Token::Dot => TokenView::Dot,
            Token::Comma => TokenView::Comma,
            Token::And => TokenView::And,
            Token::Or => TokenView::Or,
            Token::Plus => TokenView::Plus,
            Token::PlusEq => TokenView::PlusEq,
            Token::PlusPlus => TokenView::PlusPlus,
            Token::Tack => TokenView::Tack,
            Token::TackEq => TokenView::TackEq,
            Token::TackTack => TokenView::TackTack,
            Token::Arrow => TokenView::Arrow,
            Token::Star => TokenView::Star,
            Token::StarEq => TokenView::StarEq,
            Token::Slash => TokenView::Slash,
            Token::SlashEq => TokenView::SlashEq,
            Token::Percent => TokenView::Percent,
            Token::PercentEq => TokenView::PercentEq,
            Token::LCaret => TokenView::LCaret,
            Token::LCaretEq => TokenView::LCaretEq,
            Token::RCaret => TokenView::RCaret,
            Token::RCaretEq => TokenView::RCaretEq,
            Token::Equal(count) => TokenView::Equal(*count as nat),
            Token::Bang(count) => TokenView::Bang(*count as nat),
            Token::Question(count) => TokenView::Question(*count as nat),
            Token::String(segments) => TokenView::String(segment_views(segments@)),
            Token::Space(weight) => TokenView::Space(*weight as nat),
            Token::Ident(text) => TokenView::Ident(text@),
        }
    }
}

/// The tokens of a stream, each by its view.
pub open spec fn token_views(tokens: Seq<Token>) -> Seq<TokenView> {
    tokens.map_values(|token: Token| token@)
}

} // verus!
