//! The token data model: a `Token` pairs a `TokenKind` with the `TextSpan`
//! of source text it was read from.  Offsets are in characters (Unicode
//! scalar values), never bytes.

use vstd::prelude::*;

verus! {

/// The closed set of token categories.  `Number` carries the accumulated
/// value of a maximal digit run; `Bad` marks a single unrecognized
/// character; `Eof` is the end-of-input sentinel, emitted exactly once.
#[derive(Debug, Clone, Copy, PartialEq, Eq, Structural)]
pub enum TokenKind {
    Number(i64),
    Plus,
    Minus,
    Asterisk,
    Slash,
    LeftParen,
    RightParen,
    Whitespace,
    Bad,
    Eof,
}

/// The half-open character range `[start, end)` a token was read from,
/// together with the exact substring it covers.  For the end-of-input
/// sentinel `start == end == 0` and the literal is a fixed placeholder.
#[derive(Debug)]
pub struct TextSpan {
    pub start: usize,
    pub end: usize,
    pub literal: String,
}

/// The mathematical value of a `TextSpan`: the same range, over `int`
/// offsets and a character sequence.
#[verifier::ext_equal]
pub ghost struct SpecSpan {
    pub start: int,
    pub end: int,
    pub literal: Seq<char>,
}

impl View for TextSpan {
    type V = SpecSpan;

    open spec fn view(&self) -> SpecSpan {
        SpecSpan { start: self.start as int, end: self.end as int, literal: self.literal@ }
    }
}

impl TextSpan {
    pub fn new(start: usize, end: usize, literal: String) -> (span: TextSpan)
        ensures
            span.start == start,
            span.end == end,
            span.literal == literal,
    {
        TextSpan { start, end, literal }
    }

    /// The number of characters the span covers.
    pub fn length(&self) -> (n: usize)
        requires
            self.start <= self.end,
        ensures
            n == self.end - self.start,
    {
        self.end - self.start
    }
}

/// One classified unit of source text.
#[derive(Debug)]
pub struct Token {
    pub kind: TokenKind,
    pub span: TextSpan,
}

/// The mathematical value of a `Token`.
#[verifier::ext_equal]
pub ghost struct SpecToken {
    pub kind: TokenKind,
    pub span: SpecSpan,
}

impl View for Token {
    type V = SpecToken;

    open spec fn view(&self) -> SpecToken {
        SpecToken { kind: self.kind, span: self.span@ }
    }
}

impl Token {
    pub fn new(kind: TokenKind, span: TextSpan) -> (token: Token)
        ensures
            token.kind == kind,
            token.span == span,
    {
        Token { kind, span }
    }
}

} // verus!
