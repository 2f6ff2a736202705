//! The mathematical description of a scan.  These spec functions say, for a
//! source text viewed as a sequence of characters, what token begins at each
//! position and what the whole token stream looks like; the scanner in
//! `lexer` is proved against them and the stream-level laws in `laws` are
//! proved from them.

use vstd::prelude::*;

use crate::token::{SpecSpan, SpecToken, TokenKind};
use vstd::wrapping::i64_specs;

verus! {

/// A decimal digit `0` through `9`.
pub open spec fn is_digit_char(c: char) -> bool {
    48 <= c as u32 <= 57
}

/// The numeric value of a decimal digit.
pub open spec fn digit_val(c: char) -> int {
    c as u32 - 48
}

/// The Unicode `White_Space` characters: the host character model's notion
/// of whitespace, written out as the code-point ranges it consists of.
pub open spec fn is_white_char(c: char) -> bool {
    let u = c as u32;
    (9 <= u && u <= 13) || u == 32 || u == 0x85 || u == 0xA0 || u == 0x1680 || (0x2000 <= u && u
        <= 0x200A) || u == 0x2028 || u == 0x2029 || u == 0x202F || u == 0x205F || u == 0x3000
}

/// The kind a single non-digit, non-whitespace character is classified as:
/// one of the six punctuation marks, or `Bad` for anything unrecognized.
pub open spec fn punct_kind(c: char) -> TokenKind {
    if c == '+' {
        TokenKind::Plus
    } else if c == '-' {
        TokenKind::Minus
    } else if c == '*' {
        TokenKind::Asterisk
    } else if c == '/' {
        TokenKind::Slash
    } else if c == '(' {
        TokenKind::LeftParen
    } else if c == ')' {
        TokenKind::RightParen
    } else {
        TokenKind::Bad
    }
}

/// A character no class claims: scanned as a single `Bad` token.
pub open spec fn is_unrecognized(c: char) -> bool {
    &&& !is_digit_char(c)
    &&& !is_white_char(c)
    &&& punct_kind(c) == TokenKind::Bad
}

/// The end of the maximal digit run that starts at `pos`: the first
/// position at or after `pos` that does not hold a digit.
pub open spec fn run_end(s: Seq<char>, pos: int) -> int
    decreases s.len() - pos,
{
    if pos < s.len() && is_digit_char(s[pos]) {
        run_end(s, pos + 1)
    } else {
        pos
    }
}

/// The base-10 integer a digit sequence denotes, most significant digit
/// first, as an unbounded integer.
pub open spec fn run_value(ds: Seq<char>) -> int
    decreases ds.len(),
{
    if ds.len() == 0 {
        0
    } else {
        run_value(ds.drop_last()) * 10 + digit_val(ds.last())
    }
}

/// The value the scanner accumulates for a digit sequence: the same
/// multiply-add fold, but in `i64` arithmetic that wraps on overflow.
/// Where `run_value` fits in an `i64` the two agree
/// (`laws::lemma_number_value`).
pub open spec fn run_value_wrapped(ds: Seq<char>) -> i64
    decreases ds.len(),
{
    if ds.len() == 0 {
        0
    } else {
        i64_specs::wrapping_add(
            i64_specs::wrapping_mul(run_value_wrapped(ds.drop_last()), 10),
            digit_val(ds.last()) as i64,
        )
    }
}

/// Where the token that starts at `pos` ends: a digit starts a maximal
/// digit run, every other character is consumed on its own.
pub open spec fn token_end(s: Seq<char>, pos: int) -> int {
    if is_digit_char(s[pos]) {
        run_end(s, pos)
    } else {
        pos + 1
    }
}

/// The kind of the token that starts at `pos`.  Digits are tried first,
/// then whitespace; everything else is punctuation or `Bad`.
pub open spec fn kind_at(s: Seq<char>, pos: int) -> TokenKind {
    if is_digit_char(s[pos]) {
        TokenKind::Number(run_value_wrapped(s.subrange(pos, run_end(s, pos))))
    } else if is_white_char(s[pos]) {
        TokenKind::Whitespace
    } else {
        punct_kind(s[pos])
    }
}

/// The token that starts at `pos`: its kind, and the span it covers.
pub open spec fn token_at(s: Seq<char>, pos: int) -> SpecToken {
    SpecToken {
        kind: kind_at(s, pos),
        span: SpecSpan {
            start: pos,
            end: token_end(s, pos),
            literal: s.subrange(pos, token_end(s, pos)),
        },
    }
}

/// The end-of-input sentinel: a zero-length span at offset 0 with a fixed
/// placeholder literal.
pub open spec fn eof_token() -> SpecToken {
    SpecToken {
        kind: TokenKind::Eof,
        span: SpecSpan { start: 0, end: 0, literal: seq!['\u{0000}'] },
    }
}

/// Every token the scanner emits from position `pos` on, the end-of-input
/// sentinel included as the final element.
pub open spec fn token_stream_from(s: Seq<char>, pos: int) -> Seq<SpecToken>
    decreases s.len() - pos + 1,
    when 0 <= pos <= s.len()
    via token_stream_from_decreases
{
    if pos == s.len() {
        seq![eof_token()]
    } else {
        seq![token_at(s, pos)] + token_stream_from(s, token_end(s, pos))
    }
}

#[via_fn]
proof fn token_stream_from_decreases(s: Seq<char>, pos: int) {
    if 0 <= pos < s.len() {
        lemma_token_end_bounds(s, pos);
    }
}

/// The complete token stream of a source text.
pub open spec fn token_stream(s: Seq<char>) -> Seq<SpecToken> {
    token_stream_from(s, 0)
}

/// The literals of a token sequence, concatenated in order, the
/// end-of-input sentinel left out.
pub open spec fn cat_literals(ts: Seq<SpecToken>) -> Seq<char>
    decreases ts.len(),
{
    if ts.len() == 0 {
        Seq::empty()
    } else if ts[0].kind is Eof {
        cat_literals(ts.drop_first())
    } else {
        ts[0].span.literal + cat_literals(ts.drop_first())
    }
}

/// The maximal digit run starting at `pos` lies within the text, consists
/// of digits only, and is not followed by a further digit.
pub proof fn lemma_run_end_bounds(s: Seq<char>, pos: int)
    requires
        0 <= pos <= s.len(),
    ensures
        pos <= run_end(s, pos) <= s.len(),
        forall|i: int| pos <= i < run_end(s, pos) ==> is_digit_char(s[i]),
        run_end(s, pos) < s.len() ==> !is_digit_char(s[run_end(s, pos)]),
    decreases s.len() - pos,
{
    if pos < s.len() && is_digit_char(s[pos]) {
        lemma_run_end_bounds(s, pos + 1);
    }
}

/// A token that starts inside the text consumes at least one character and
/// does not run past the end.
pub proof fn lemma_token_end_bounds(s: Seq<char>, pos: int)
    requires
        0 <= pos < s.len(),
    ensures
        pos < token_end(s, pos) <= s.len(),
{
    if is_digit_char(s[pos]) {
        lemma_run_end_bounds(s, pos + 1);
    }
}

} // verus!
