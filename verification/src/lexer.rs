//! The scanner.  A `Lexer` owns a read-only view of the source text and a
//! cursor in character offsets; each call of `next_token` classifies the
//! text at the cursor as exactly one token and advances past it, emits the
//! end-of-input sentinel once the text is spent, and returns nothing ever
//! after.

use vstd::prelude::*;

use crate::model::{eof_token, run_end, run_value_wrapped, token_at, token_end};
use crate::model::{is_digit_char, is_white_char, punct_kind};
use crate::token::{TextSpan, Token, TokenKind};
use vstd::string::StrSliceExecFns;

verus! {

/// The scanner state as contracts speak of it: the source as a character
/// sequence, and the cursor as an unbounded integer.
#[verifier::ext_equal]
pub ghost struct LexerModel {
    pub source: Seq<char>,
    pub pos: int,
}

/// The scanner.  `pos <= source.len()` while scanning; `pos` moves to
/// `source.len() + 1` when the end-of-input sentinel is emitted, and the
/// scanner is exhausted from then on.
pub struct Lexer<'a> {
    input: &'a str,
    current_pos: usize,
}

impl<'a> View for Lexer<'a> {
    type V = LexerModel;

    closed spec fn view(&self) -> LexerModel {
        LexerModel { source: self.input@, pos: self.current_pos as int }
    }
}

impl<'a> Lexer<'a> {
    #[verifier::type_invariant]
    spec fn wf(self) -> bool {
        &&& self.current_pos <= self.input@.len() + 1
        &&& self.input@.len() < usize::MAX
    }

    /// A scanner over `input`, positioned at offset 0.
    pub fn new(input: &'a str) -> (lexer: Lexer<'a>)
        requires
            input@.len() < usize::MAX,
        ensures
            lexer@.source == input@,
            lexer@.pos == 0,
    {
        Lexer { input, current_pos: 0 }
    }

    /// The character under the cursor, if the cursor is inside the text.
    fn current_char(&self) -> (c: Option<char>)
        ensures
            c == (if self@.pos < self@.source.len() {
                Some(self@.source[self@.pos])
            } else {
                None::<char>
            }),
    {
        if self.current_pos < self.input.unicode_len() {
            Some(self.input.get_char(self.current_pos))
        } else {
            None
        }
    }

    /// Reads the character under the cursor and advances past it; leaves an
    /// exhausted cursor alone.
    fn consume(&mut self) -> (c: Option<char>)
        ensures
            final(self)@.source == old(self)@.source,
            old(self)@.pos < old(self)@.source.len() ==> {
                &&& final(self)@.pos == old(self)@.pos + 1
                &&& c == Some(old(self)@.source[old(self)@.pos])
            },
            old(self)@.pos >= old(self)@.source.len() ==> {
                &&& final(self)@.pos == old(self)@.pos
                &&& c is None
            },
    {
        proof {
            use_type_invariant(&*self);
        }
        match self.current_char() {
            Some(c) => {
                self.current_pos += 1;
                Some(c)
            },
            None => None,
        }
    }

    /// Whether `c` is whitespace under the host character model.
    fn is_whitespace(c: &char) -> (r: bool)
        ensures
            r == is_white_char(*c),
    {
        let u = *c as u32;
        (9 <= u && u <= 13) || u == 32 || u == 0x85 || u == 0xA0 || u == 0x1680 || (0x2000 <= u && u
            <= 0x200A) || u == 0x2028 || u == 0x2029 || u == 0x202F || u == 0x205F || u == 0x3000
    }

    /// Whether `c` opens a numeric literal, that is, is a decimal digit.
    fn is_number_start(c: &char) -> (r: bool)
        ensures
            r == is_digit_char(*c),
    {
        let u = *c as u32;
        48 <= u && u <= 57
    }

    /// Consumes one whitespace character.
    fn consume_whitespace(&mut self) -> (k: TokenKind)
        requires
            old(self)@.pos < old(self)@.source.len(),
        ensures
            final(self)@.source == old(self)@.source,
            final(self)@.pos == old(self)@.pos + 1,
            k == TokenKind::Whitespace,
    {
        let _c = self.consume().unwrap();
        TokenKind::Whitespace
    }

    /// Consumes one character and classifies it as a punctuation mark, or as
    /// `Bad` if it is none of the six.
    fn consume_punctuation(&mut self) -> (k: TokenKind)
        requires
            old(self)@.pos < old(self)@.source.len(),
        ensures
            final(self)@.source == old(self)@.source,
            final(self)@.pos == old(self)@.pos + 1,
            k == punct_kind(old(self)@.source[old(self)@.pos]),
    {
        let c = self.consume().unwrap();
        match c {
            '+' => TokenKind::Plus,
            '-' => TokenKind::Minus,
            '*' => TokenKind::Asterisk,
            '/' => TokenKind::Slash,
            '(' => TokenKind::LeftParen,
            ')' => TokenKind::RightParen,
            _ => TokenKind::Bad,
        }
    }

    /// Consumes the maximal digit run at the cursor and accumulates its
    /// base-10 value in `i64` arithmetic that wraps on overflow.
    fn consume_number(&mut self) -> (number: i64)
        requires
            old(self)@.pos <= old(self)@.source.len(),
        ensures
            final(self)@.source == old(self)@.source,
            final(self)@.pos == run_end(old(self)@.source, old(self)@.pos),
            number == run_value_wrapped(
                old(self)@.source.subrange(
                    old(self)@.pos,
                    run_end(old(self)@.source, old(self)@.pos),
                ),
            ),
    {
        let ghost s = self@.source;
        let ghost p0 = self@.pos;
        let mut number: i64 = 0;
        loop
            invariant
                self@.source == s,
                0 <= p0 <= self@.pos <= s.len(),
                run_end(s, p0) == run_end(s, self@.pos),
                number == run_value_wrapped(s.subrange(p0, self@.pos)),
            ensures
                self@.source == s,
                self@.pos == run_end(s, p0),
                number == run_value_wrapped(s.subrange(p0, run_end(s, p0))),
            decreases s.len() - self@.pos,
        {
            match self.current_char() {
                Some(c) => {
                    if Self::is_number_start(&c) {
                        let ghost p = self@.pos;
                        self.consume().unwrap();
                        let d: u32 = c as u32 - 48;
                        number = number.wrapping_mul(10).wrapping_add(d as i64);
                        proof {
                            assert(s.subrange(p0, p + 1).drop_last() =~= s.subrange(p0, p));
                            assert(s.subrange(p0, p + 1).last() == s[p]);
                        }
                    } else {
                        break ;
                    }
                },
                None => {
                    break ;
                },
            }
        }
        number
    }

    /// The next token of the source text.  While the cursor is inside the
    /// text this is the token `model::token_at` describes; at the end of the
    /// text it is the end-of-input sentinel, emitted exactly once; after
    /// that the stream is exhausted and the call returns nothing, forever.
    pub fn next_token(&mut self) -> (t: Option<Token>)
        ensures
            final(self)@.source == old(self)@.source,
            old(self)@.pos == old(self)@.source.len() ==> {
                &&& final(self)@.pos == old(self)@.pos + 1
                &&& (t matches Some(tok) && tok@ == eof_token())
            },
            old(self)@.pos > old(self)@.source.len() ==> {
                &&& final(self)@.pos == old(self)@.pos
                &&& t is None
            },
            old(self)@.pos < old(self)@.source.len() ==> {
                &&& final(self)@.pos == token_end(old(self)@.source, old(self)@.pos)
                &&& (t matches Some(tok) && tok@ == token_at(old(self)@.source, old(self)@.pos))
            },
    {
        proof {
            use_type_invariant(&*self);
        }
        let ghost s = self@.source;
        let ghost p = self@.pos;
        if self.current_pos == self.input.unicode_len() {
            self.current_pos += 1;
            let literal = "\u{0000}".to_owned();
            proof {
                reveal_strlit("\u{0000}");
                assert(literal@ =~= eof_token().span.literal);
            }
            return Some(Token::new(TokenKind::Eof, TextSpan::new(0, 0, literal)));
        }
        match self.current_char() {
            None => None,
            Some(c) => {
                let start = self.current_pos;
                let kind = if Self::is_number_start(&c) {
                    let number = self.consume_number();
                    TokenKind::Number(number)
                } else if Self::is_whitespace(&c) {
                    self.consume_whitespace()
                } else {
                    self.consume_punctuation()
                };
                let end = self.current_pos;
                proof {
                    crate::model::lemma_run_end_bounds(s, p);
                }
                let literal = self.input.substring_char(start, end).to_owned();
                let span = TextSpan::new(start, end, literal);
                let token = Token::new(kind, span);
                proof {
                    assert(token@ =~= token_at(s, p));
                }
                Some(token)
            },
        }
    }
}

} // verus!
