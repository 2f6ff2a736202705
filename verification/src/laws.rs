//! Stream-level properties of the scanner, proved over the model in
//! `model`: round-trip of literals, exactness of numeric values, the
//! uniqueness and finality of the end-of-input sentinel, whitespace
//! granularity, and the safety of unrecognized input.

use vstd::prelude::*;

use crate::model::{cat_literals, eof_token, kind_at, token_at, token_end, token_stream,
    token_stream_from};
use crate::model::{is_digit_char, is_unrecognized, is_white_char};
use crate::model::{digit_val, lemma_run_end_bounds, lemma_token_end_bounds, run_end, run_value,
    run_value_wrapped};
use crate::token::{SpecToken, TokenKind};

verus! {

/// A digit sequence denotes a non-negative number.
proof fn lemma_run_value_nonneg(ds: Seq<char>)
    requires
        forall|i: int| 0 <= i < ds.len() ==> is_digit_char(ds[i]),
    ensures
        run_value(ds) >= 0,
    decreases ds.len(),
{
    if ds.len() > 0 {
        lemma_run_value_nonneg(ds.drop_last());
    }
}

/// For a digit sequence whose base-10 value fits in an `i64`, the wrapped
/// multiply-add fold computes exactly that value: no step of the
/// accumulation wraps.
pub proof fn lemma_wrapped_value_exact(ds: Seq<char>)
    requires
        forall|i: int| 0 <= i < ds.len() ==> is_digit_char(ds[i]),
        run_value(ds) <= i64::MAX,
    ensures
        run_value_wrapped(ds) == run_value(ds),
    decreases ds.len(),
{
    if ds.len() > 0 {
        let prefix = ds.drop_last();
        let v = run_value(prefix);
        let d = digit_val(ds.last());
        lemma_run_value_nonneg(prefix);
        lemma_wrapped_value_exact(prefix);
        vstd::arithmetic::div_mod::lemma_small_mod(
            (10 * v) as nat,
            0x1_0000_0000_0000_0000 as nat,
        );
        assert(run_value_wrapped(ds) == run_value(ds));
    }
}

/// For a maximal digit run whose base-10 value fits in an `i64`, the token
/// scanned at the start of the run is `Number` of exactly that value.
pub proof fn lemma_number_value(s: Seq<char>, pos: int)
    requires
        0 <= pos < s.len(),
        is_digit_char(s[pos]),
        run_value(s.subrange(pos, run_end(s, pos))) <= i64::MAX,
    ensures
        (kind_at(s, pos) matches TokenKind::Number(n) && n == run_value(
            s.subrange(pos, run_end(s, pos)),
        )),
{
    lemma_run_end_bounds(s, pos);
    lemma_wrapped_value_exact(s.subrange(pos, run_end(s, pos)));
}

proof fn lemma_max_run_start_reached(s: Seq<char>, from: int, pos: int)
    requires
        0 <= from <= pos < s.len(),
        is_digit_char(s[pos]),
        from == pos || !is_digit_char(s[pos - 1]),
    ensures
        token_stream_from(s, from).contains(token_at(s, pos)),
    decreases pos - from,
{
    let ts = token_stream_from(s, from);
    if from == pos {
        assert(ts[0] == token_at(s, pos));
    } else {
        lemma_token_end_bounds(s, from);
        let end = token_end(s, from);
        if end > pos {
            lemma_run_end_bounds(s, from);
            assert(is_digit_char(s[pos - 1]));
        }
        lemma_max_run_start_reached(s, end, pos);
        let rest = token_stream_from(s, end);
        let i = choose|i: int| 0 <= i < rest.len() && rest[i] == token_at(s, pos);
        assert(ts[i + 1] == token_at(s, pos));
    }
}

/// Numeric correctness over the emitted stream: the token scanned for a
/// maximal digit run is among the emitted tokens, and where the run's
/// base-10 value fits in an `i64` that token is `Number` of exactly that
/// value.
pub proof fn lemma_number_token_emitted(s: Seq<char>, pos: int)
    requires
        0 <= pos < s.len(),
        is_digit_char(s[pos]),
        pos == 0 || !is_digit_char(s[pos - 1]),
        run_value(s.subrange(pos, run_end(s, pos))) <= i64::MAX,
    ensures
        token_stream(s).contains(token_at(s, pos)),
        (token_at(s, pos).kind matches TokenKind::Number(n) && n == run_value(
            s.subrange(pos, run_end(s, pos)),
        )),
        token_at(s, pos).span.start == pos,
        token_at(s, pos).span.end == run_end(s, pos),
        token_at(s, pos).span.literal == s.subrange(pos, run_end(s, pos)),
{
    lemma_max_run_start_reached(s, 0, pos);
    lemma_number_value(s, pos);
}

/// No token scanned from inside the text is the end-of-input sentinel.
proof fn lemma_kind_at_not_eof(s: Seq<char>, pos: int)
    requires
        0 <= pos < s.len(),
    ensures
        !(kind_at(s, pos) is Eof),
{
}

proof fn lemma_round_trip_from(s: Seq<char>, pos: int)
    requires
        0 <= pos <= s.len(),
    ensures
        cat_literals(token_stream_from(s, pos)) == s.subrange(pos, s.len() as int),
    decreases s.len() - pos,
{
    if pos == s.len() {
        let ts = token_stream_from(s, pos);
        assert(ts == seq![eof_token()]);
        assert(ts[0].kind is Eof);
        assert(ts.drop_first() =~= Seq::<SpecToken>::empty());
        assert(cat_literals(ts) == cat_literals(Seq::<SpecToken>::empty()));
        assert(cat_literals(Seq::<SpecToken>::empty()) == Seq::<char>::empty());
        assert(s.subrange(pos, s.len() as int) =~= Seq::<char>::empty());
    } else {
        lemma_token_end_bounds(s, pos);
        let end = token_end(s, pos);
        lemma_round_trip_from(s, end);
        lemma_kind_at_not_eof(s, pos);
        let ts = token_stream_from(s, pos);
        let rest = token_stream_from(s, end);
        assert(ts[0] == token_at(s, pos));
        assert(ts.drop_first() =~= rest);
        assert(cat_literals(ts) =~= s.subrange(pos, end) + s.subrange(end, s.len() as int));
        assert(s.subrange(pos, end) + s.subrange(end, s.len() as int) =~= s.subrange(
            pos,
            s.len() as int,
        ));
    }
}

/// Round trip: the literals of the token stream, concatenated in order with
/// the end-of-input sentinel left out, reproduce the source text exactly.
pub proof fn lemma_round_trip(s: Seq<char>)
    ensures
        cat_literals(token_stream(s)) == s,
{
    lemma_round_trip_from(s, 0);
    assert(s.subrange(0, s.len() as int) =~= s);
}

proof fn lemma_stream_shape_from(s: Seq<char>, pos: int)
    requires
        0 <= pos <= s.len(),
    ensures
        token_stream_from(s, pos).len() >= 1,
        token_stream_from(s, pos).last() == eof_token(),
        forall|i: int|
            0 <= i < token_stream_from(s, pos).len() - 1 ==> !(#[trigger] token_stream_from(
                s,
                pos,
            )[i].kind is Eof),
    decreases s.len() - pos,
{
    if pos == s.len() {
    } else {
        lemma_token_end_bounds(s, pos);
        lemma_stream_shape_from(s, token_end(s, pos));
        lemma_kind_at_not_eof(s, pos);
        let ts = token_stream_from(s, pos);
        let rest = token_stream_from(s, token_end(s, pos));
        assert forall|i: int| 0 <= i < ts.len() - 1 implies !(#[trigger] ts[i].kind is Eof) by {
            if i > 0 {
                assert(ts[i] == rest[i - 1]);
            }
        }
    }
}

/// Termination shape of the stream: there is exactly one end-of-input
/// sentinel, and it is the last token.
pub proof fn lemma_exactly_one_end(s: Seq<char>)
    ensures
        token_stream(s).len() >= 1,
        token_stream(s).last() == eof_token(),
        forall|i: int|
            0 <= i < token_stream(s).len() - 1 ==> !(#[trigger] token_stream(s)[i].kind is Eof),
{
    lemma_stream_shape_from(s, 0);
}

proof fn lemma_whitespace_from(s: Seq<char>, pos: int)
    requires
        0 <= pos <= s.len(),
        forall|i: int| 0 <= i < s.len() ==> is_white_char(#[trigger] s[i]),
    ensures
        token_stream_from(s, pos).len() == s.len() - pos + 1,
        forall|i: int|
            0 <= i < s.len() - pos ==> {
                let t = #[trigger] token_stream_from(s, pos)[i];
                t.kind is Whitespace && t.span.start == pos + i && t.span.end == pos + i + 1
            },
    decreases s.len() - pos,
{
    if pos < s.len() {
        lemma_whitespace_from(s, pos + 1);
        let ts = token_stream_from(s, pos);
        let rest = token_stream_from(s, pos + 1);
        assert forall|i: int| 0 <= i < s.len() - pos implies {
            let t = #[trigger] ts[i];
            t.kind is Whitespace && t.span.start == pos + i && t.span.end == pos + i + 1
        } by {
            if i == 0 {
                assert(ts[0] == token_at(s, pos));
            } else {
                assert(ts[i] == rest[i - 1]);
            }
        }
    }
}

/// Whitespace granularity: a source of `k` whitespace characters scans to
/// `k` separate one-character `Whitespace` tokens, then the end-of-input
/// sentinel.
pub proof fn lemma_whitespace_granularity(s: Seq<char>)
    requires
        forall|i: int| 0 <= i < s.len() ==> is_white_char(#[trigger] s[i]),
    ensures
        token_stream(s).len() == s.len() + 1,
        forall|i: int|
            0 <= i < s.len() ==> {
                let t = #[trigger] token_stream(s)[i];
                t.kind is Whitespace && t.span.start == i && t.span.end == i + 1
            },
        token_stream(s).last() == eof_token(),
{
    lemma_whitespace_from(s, 0);
    lemma_stream_shape_from(s, 0);
}

/// Unrecognized-input safety: a character outside every class yields
/// exactly one `Bad` token covering that single character, and scanning
/// continues with the character after it.
pub proof fn lemma_unrecognized_single(s: Seq<char>, pos: int)
    requires
        0 <= pos < s.len(),
        is_unrecognized(s[pos]),
    ensures
        token_at(s, pos).kind == TokenKind::Bad,
        token_at(s, pos).span.start == pos,
        token_at(s, pos).span.end == pos + 1,
        token_at(s, pos).span.literal == seq![s[pos]],
        token_stream_from(s, pos) == seq![token_at(s, pos)] + token_stream_from(s, pos + 1),
{
    assert(s.subrange(pos, pos + 1) =~= seq![s[pos]]);
}

} // verus!
