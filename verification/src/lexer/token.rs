//! Tokens: the closed variant set the tokenizer maps spans onto, each token
//! retaining its originating span for diagnostics.

use vstd::prelude::*;
use crate::span::Span;

verus! {

/// The reserved words.
#[derive(Clone, Copy, Debug, PartialEq, Eq, Structural)]
pub enum Keyword {
    Typedef,
    If,
    Else,
}

/// An identifier, holding its own copy of the name text.
#[derive(Debug, PartialEq, Eq)]
pub struct Ident {
    name: Vec<char>,
}

impl View for Ident {
    type V = Seq<char>;

    closed spec fn view(&self) -> Seq<char> {
        self.name@
    }
}

impl Ident {
    /// An identifier with the given name.
    #[must_use]
    pub fn new(name: Vec<char>) -> (r: Ident)
        ensures
            r@ == name@,
    {
        Ident { name }
    }

    /// The name text.
    pub fn text(&self) -> (r: &Vec<char>)
        ensures
            r@ == self@,
    {
        &self.name
    }

    /// A fresh identifier with the same name.
    pub fn dup(&self) -> (r: Ident)
        ensures
            r@ == self@,
    {
        Ident { name: crate::span::copy_text(&self.name) }
    }
}

/// A literal value.
#[derive(Clone, Copy, Debug, PartialEq, Eq)]
pub enum Literal {
    Int(i64),
}

/// What a token is: a keyword, an identifier, an integer literal, one of the
/// fixed punctuation and operator set, or end-of-input.
#[derive(Debug, PartialEq, Eq)]
pub enum TokenKind {
    Keyword(Keyword),
    Ident(Ident),
    Literal(Literal),
    OpenParen,
    CloseParen,
    OpenBrace,
    CloseBrace,
    Equals,
    Assign,
    SemiColon,
    Comma,
    Star,
    Eof,
}

/// The mathematical view of a token kind: identifier text as a sequence.
pub enum TokenKindV {
    Keyword(Keyword),
    Ident(Seq<char>),
    Literal(Literal),
    OpenParen,
    CloseParen,
    OpenBrace,
    CloseBrace,
    Equals,
    Assign,
    SemiColon,
    Comma,
    Star,
    Eof,
}

impl View for TokenKind {
    type V = TokenKindV;

    open spec fn view(&self) -> TokenKindV {
        match self {
            TokenKind::Keyword(w) => TokenKindV::Keyword(*w),
            TokenKind::Ident(id) => TokenKindV::Ident(id@),
            TokenKind::Literal(l) => TokenKindV::Literal(*l),
            TokenKind::OpenParen => TokenKindV::OpenParen,
            TokenKind::CloseParen => TokenKindV::CloseParen,
            TokenKind::OpenBrace => TokenKindV::OpenBrace,
            TokenKind::CloseBrace => TokenKindV::CloseBrace,
            TokenKind::Equals => TokenKindV::Equals,
            TokenKind::Assign => TokenKindV::Assign,
            TokenKind::SemiColon => TokenKindV::SemiColon,
            TokenKind::Comma => TokenKindV::Comma,
            TokenKind::Star => TokenKindV::Star,
            TokenKind::Eof => TokenKindV::Eof,
        }
    }
}

impl TokenKind {
    /// The keyword this token holds, if it is one.
    #[must_use]
    pub fn as_keyword(&self) -> (r: Option<&Keyword>)
        ensures
            match self {
                TokenKind::Keyword(w) => r matches Some(v) && v == w,
                _ => r is None,
            },
    {
        if let TokenKind::Keyword(v) = self {
            Some(v)
        } else {
            None
        }
    }

    /// The identifier this token holds, if it is one.
    #[must_use]
    pub fn as_ident(&self) -> (r: Option<&Ident>)
        ensures
            match self {
                TokenKind::Ident(id) => r matches Some(v) && v == id,
                _ => r is None,
            },
    {
        if let TokenKind::Ident(v) = self {
            Some(v)
        } else {
            None
        }
    }

    /// The literal this token holds, if it is one.
    #[must_use]
    pub fn as_literal(&self) -> (r: Option<&Literal>)
        ensures
            match self {
                TokenKind::Literal(l) => r matches Some(v) && v == l,
                _ => r is None,
            },
    {
        if let TokenKind::Literal(v) = self {
            Some(v)
        } else {
            None
        }
    }
}

/// The mathematical view of a token.
pub struct TokenV {
    pub kind: TokenKindV,
    pub span: Span,
}

/// A token kind together with its originating span. Immutable once produced.
#[derive(Debug)]
pub struct Token {
    pub kind: TokenKind,
    pub span: Span,
}

impl View for Token {
    type V = TokenV;

    open spec fn view(&self) -> TokenV {
        TokenV { kind: self.kind@, span: self.span }
    }
}

impl Token {
    /// A token of the given kind over the given span.
    pub fn new(kind: TokenKind, span: Span) -> (r: Token)
        ensures
            r@ == (TokenV { kind: kind@, span }),
    {
        Token { kind, span }
    }
}

} // verus!
