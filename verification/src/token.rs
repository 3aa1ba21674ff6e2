use vstd::prelude::*;
use crate::loc::{Loc, LocView};

verus! {

/// The kinds of token.
#[derive(Debug, PartialEq, Eq)]
pub enum TokenKind {
    Name(String),
    Oparen,
    Cparen,
    OpenBrace,
    CloseBrace,
    Comma,
    Semicolon,
    Number(i32),
    StringLiteral(String),
}

/// The mathematical value of a `TokenKind`.
pub enum TokenKindView {
    Name(Seq<char>),
    Oparen,
    Cparen,
    OpenBrace,
    CloseBrace,
    Comma,
    Semicolon,
    Number(int),
    StringLiteral(Seq<char>),
}

impl View for TokenKind {
    type V = TokenKindView;

    open spec fn view(&self) -> TokenKindView {
        match self {
            TokenKind::Name(s) => TokenKindView::Name(s@),
            TokenKind::Oparen => TokenKindView::Oparen,
            TokenKind::Cparen => TokenKindView::Cparen,
            TokenKind::OpenBrace => TokenKindView::OpenBrace,
            TokenKind::CloseBrace => TokenKindView::CloseBrace,
            TokenKind::Comma => TokenKindView::Comma,
            TokenKind::Semicolon => TokenKindView::Semicolon,
            TokenKind::Number(n) => TokenKindView::Number(*n as int),
            TokenKind::StringLiteral(s) => TokenKindView::StringLiteral(s@),
        }
    }
}

impl TokenKindView {
    /// A literal is a number or a string literal.
    pub open spec fn is_literal(self) -> bool {
        self is Number || self is StringLiteral
    }
}

/// A token: its kind and the place of its first character.
#[derive(Debug, PartialEq, Eq)]
pub struct Token {
    pub loc: Loc,
    pub kind: TokenKind,
}

/// The mathematical value of a `Token`.
pub struct TokenView {
    pub loc: LocView,
    pub kind: TokenKindView,
}

impl View for Token {
    type V = TokenView;

    open spec fn view(&self) -> TokenView {
        TokenView { loc: self.loc@, kind: self.kind@ }
    }
}

impl Token {
    /// The token of this kind at this place.
    pub fn new(loc: Loc, kind: TokenKind) -> (t: Token)
        ensures
            t@ == (TokenView { loc: loc@, kind: kind@ }),
            t.loc == loc,
            t.kind == kind,
    {
        Token { loc, kind }
    }
}

/// The values of a sequence of tokens.
pub open spec fn token_views(ts: Seq<Token>) -> Seq<TokenView> {
    ts.map_values(|t: Token| t@)
}

} // verus!
