//! What holds of positions and of scanning a complete input.

use vstd::prelude::*;

use crate::position::{fits, pos_after, NEWLINE};
use crate::scan::{run_buffered, run_refilled, Outcome, Splitter};

verus! {

/// How many newline bytes `b` holds.
pub open spec fn newlines(b: Seq<u8>) -> int
    decreases b.len(),
{
    if b.len() == 0 {
        0
    } else {
        newlines(b.drop_last()) + if b.last() == NEWLINE { 1int } else { 0int }
    }
}

/// How many bytes of `b` follow its last newline (all of them if none).
pub open spec fn since_newline(b: Seq<u8>) -> int
    decreases b.len(),
{
    if b.len() == 0 {
        0
    } else if b.last() == NEWLINE {
        0
    } else {
        since_newline(b.drop_last()) + 1
    }
}

/// After consuming bytes holding `k` newlines, the line has grown by `k`;
/// the column is one more than the bytes since the last newline, or has
/// grown by the count of bytes when there was none.
pub proof fn lemma_position_counts(p: (int, int), b: Seq<u8>)
    requires
        pos_after(p, b) is Some,
    ensures
        pos_after(p, b)->Some_0.0 == p.0 + newlines(b),
        pos_after(p, b)->Some_0.1 == if newlines(b) == 0 {
            p.1 + b.len()
        } else {
            since_newline(b) + 1
        },
        newlines(b) == 0 ==> since_newline(b) == b.len(),
        newlines(b) >= 0,
    decreases b.len(),
{
    if b.len() > 0 {
        lemma_position_counts(p, b.drop_last());
    }
}

/// Consuming bytes from a position that leaves room for one step per byte on
/// both counters never overflows, and moves each counter by at most that much.
pub proof fn lemma_pos_in_range(p: (int, int), b: Seq<u8>)
    requires
        1 <= p.1,
        p.0 + b.len() <= u64::MAX,
        p.1 + b.len() <= usize::MAX,
    ensures
        pos_after(p, b) is Some,
        pos_after(p, b)->Some_0.0 <= p.0 + b.len(),
        1 <= pos_after(p, b)->Some_0.1 <= p.1 + b.len(),
    decreases b.len(),
{
    if b.len() > 0 {
        lemma_pos_in_range(p, b.drop_last());
    }
}

/// With a splitter that takes a whole complete input as one token and asks
/// for more on an empty one, a fresh scan of a non-empty input yields that
/// token, consuming everything, and the next scan yields the end.
pub proof fn lemma_whole_input_one_token<S: Splitter>(sp: S, data: Seq<u8>, tok: S::TokenType)
    requires
        data.len() > 0,
        data.len() < u64::MAX,
        data.len() < usize::MAX,
        sp.split_spec(data, true) == (sp, Ok::<(Option<S::TokenType>, usize), S::Error>((Some(tok), data.len() as usize))),
        sp.split_spec(Seq::empty(), true) == (sp, Ok::<(Option<S::TokenType>, usize), S::Error>((None, 0usize))),
    ensures
        ({
            let (s1, rest, q, out) = run_buffered(sp, data, true, (1, 1));
            &&& s1 == sp
            &&& rest == Seq::<u8>::empty()
            &&& q == pos_after((1, 1), data)->Some_0
            &&& out == Outcome::<S::TokenType, S::Error>::Token(Some(tok))
            &&& run_buffered(s1, rest, true, q) == (sp, rest, q, Outcome::<S::TokenType, S::Error>::Token(None))
        }),
{
    lemma_pos_in_range((1, 1), data);
    assert(data.take(data.len() as int) =~= data);
    assert(data.skip(data.len() as int) =~= Seq::<u8>::empty());
}

/// With a splitter that skips a whole run of delimiter bytes and asks for
/// more on an empty input, a fresh scan of an input of delimiters alone
/// yields the end at once, having consumed every byte.
pub proof fn lemma_only_delimiters<S: Splitter>(sp: S, data: Seq<u8>, delim: spec_fn(u8) -> bool)
    requires
        data.len() < u64::MAX,
        data.len() < usize::MAX,
        forall|i: int| 0 <= i < data.len() ==> delim(#[trigger] data[i]),
        forall|d: Seq<u8>|
            d.len() > 0 && (forall|i: int| 0 <= i < d.len() ==> delim(#[trigger] d[i])) ==> #[trigger] sp.split_spec(d, true)
                == (sp, Ok::<(Option<S::TokenType>, usize), S::Error>((None, d.len() as usize))),
        sp.split_spec(Seq::empty(), true) == (sp, Ok::<(Option<S::TokenType>, usize), S::Error>((None, 0usize))),
    ensures
        ({
            let (s1, rest, q, out) = run_buffered(sp, data, true, (1, 1));
            &&& s1 == sp
            &&& rest == Seq::<u8>::empty()
            &&& q == pos_after((1, 1), data)->Some_0
            &&& out == Outcome::<S::TokenType, S::Error>::Token(None)
        }),
{
    lemma_pos_in_range((1, 1), data);
    if data.len() > 0 {
        assert(data.take(data.len() as int) =~= data);
        assert(data.skip(data.len() as int) =~= Seq::<u8>::empty());
        let q = pos_after((1, 1), data)->Some_0;
        assert(run_buffered(sp, Seq::<u8>::empty(), true, q) == (sp, Seq::<u8>::empty(), q, Outcome::<S::TokenType, S::Error>::Token(None)));
    } else {
        assert(data =~= Seq::<u8>::empty());
    }
}

/// A splitter whose state never changes and which never asks to consume more
/// than it was given, as `Splitter::split` promises.
pub open spec fn steady<S: Splitter>(sp: S) -> bool {
    &&& forall|d: Seq<u8>, e: bool| (#[trigger] sp.split_spec(d, e)).0 == sp
    &&& forall|d: Seq<u8>, e: bool|
        (#[trigger] sp.split_spec(d, e)).1 matches Ok((_, n)) ==> n <= d.len()
}

/// With a steady splitter, the bytes buffered end at the end of the input
/// only where splitting them again at the end changes nothing.
pub proof fn lemma_buffered_end_is_stable<S: Splitter>(sp: S, data: Seq<u8>, eof: bool, pos: (int, int))
    requires
        steady(sp),
    ensures
        ({
            let (s1, rest, q, out) = run_buffered(sp, data, eof, pos);
            &&& s1 == sp
            &&& out == Outcome::<S::TokenType, S::Error>::Token(None) ==> run_buffered(s1, rest, true, q) == (
                s1,
                rest,
                q,
                out,
            )
        }),
    decreases data.len(),
{
    if !(data.len() == 0 && !eof) {
        let (next, r) = sp.split_spec(data, eof);
        match r {
            Err(e) => {},
            Ok((tok, n)) => {
                if n > data.len() || (tok is None && n == 0) {
                } else {
                    match pos_after(pos, data.take(n as int)) {
                        None => {},
                        Some(q) => {
                            if tok is None {
                                lemma_buffered_end_is_stable(next, data.skip(n as int), eof, q);
                            }
                        },
                    }
                }
            },
        }
    }
}

/// With a steady splitter, once a scan yields the end, whether or not it
/// refilled on the way, scanning again yields the end and changes nothing.
pub proof fn lemma_end_is_stable<S: Splitter>(
    sp: S,
    data: Seq<u8>,
    eof: bool,
    pos: (int, int),
    fills: Seq<(Seq<u8>, bool)>,
)
    requires
        steady(sp),
        run_refilled(sp, data, eof, pos, fills).3 == Outcome::<S::TokenType, S::Error>::Token(None),
    ensures
        ({
            let (s1, rest, q, out) = run_refilled(sp, data, eof, pos, fills);
            run_buffered(s1, rest, true, q) == (s1, rest, q, out)
        }),
    decreases fills.len(),
{
    lemma_buffered_end_is_stable(sp, data, eof, pos);
    let (s1, rest, q, out) = run_buffered(sp, data, eof, pos);
    if out is NeedMore && fills.len() > 0 {
        lemma_end_is_stable(s1, rest + fills[0].0, fills[0].1, q, fills.drop_first());
    }
}

/// On an input at its end the bytes buffered always decide: `scan` never
/// needs a refill there.
pub proof fn lemma_complete_input_decides<S: Splitter>(sp: S, data: Seq<u8>, pos: (int, int))
    ensures
        run_buffered(sp, data, true, pos).3 != Outcome::<S::TokenType, S::Error>::NeedMore,
    decreases data.len(),
{
    let (next, r) = sp.split_spec(data, true);
    match r {
        Err(e) => {},
        Ok((tok, n)) => {
            if n > data.len() || (tok is None && n == 0) {
            } else {
                match pos_after(pos, data.take(n as int)) {
                    None => {},
                    Some(q) => {
                        if tok is None {
                            lemma_complete_input_decides(next, data.skip(n as int), q);
                        }
                    },
                }
            }
        },
    }
}

} // verus!
