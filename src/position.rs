//! Line and column tracking over consumed bytes.

use vstd::prelude::*;

verus! {

/// The byte that ends a line.
pub const NEWLINE: u8 = 10;

/// Whether a `(line, column)` pair fits the counters that hold it.
pub open spec fn fits(p: (int, int)) -> bool {
    p.0 <= u64::MAX && p.1 <= usize::MAX
}

/// The position after one byte: a newline moves to the first column of the
/// next line, any other byte moves one column right.
pub open spec fn step_pos(p: (int, int), b: u8) -> (int, int) {
    if b == NEWLINE {
        (p.0 + 1, 1)
    } else {
        (p.0, p.1 + 1)
    }
}

/// The position after consuming `bytes` from `p`, or `None` when a counter
/// would leave its range on the way.
pub open spec fn pos_after(p: (int, int), bytes: Seq<u8>) -> Option<(int, int)>
    decreases bytes.len(),
{
    if bytes.len() == 0 {
        Some(p)
    } else {
        match pos_after(p, bytes.drop_last()) {
            Some(q) => {
                let s = step_pos(q, bytes.last());
                if fits(s) {
                    Some(s)
                } else {
                    None
                }
            },
            None => None,
        }
    }
}

/// Once a counter has left its range, consuming more bytes does not bring it back.
pub proof fn lemma_overflow_persists(p: (int, int), bytes: Seq<u8>, i: int, j: int)
    requires
        0 <= i <= j <= bytes.len(),
        pos_after(p, bytes.take(i)) is None,
    ensures
        pos_after(p, bytes.take(j)) is None,
    decreases j - i,
{
    if i < j {
        lemma_overflow_persists(p, bytes, i, j - 1);
        assert(bytes.take(j).drop_last() =~= bytes.take(j - 1));
    }
}

/// Consuming at least one byte moves the position strictly forward, line first.
pub proof fn lemma_pos_advances(p: (int, int), bytes: Seq<u8>)
    requires
        bytes.len() > 0,
        pos_after(p, bytes) is Some,
    ensures
        ({
            let q = pos_after(p, bytes)->Some_0;
            q.0 > p.0 || (q.0 == p.0 && q.1 > p.1)
        }),
    decreases bytes.len(),
{
    if bytes.len() > 1 {
        lemma_pos_advances(p, bytes.drop_last());
    } else {
        assert(pos_after(p, bytes.drop_last()) == Some(p));
    }
}

/// Consuming `a` then `b` lands where consuming `a + b` does.
pub proof fn lemma_pos_concat(p: (int, int), a: Seq<u8>, b: Seq<u8>)
    requires
        pos_after(p, a) is Some,
    ensures
        pos_after(p, a + b) == pos_after(pos_after(p, a)->Some_0, b),
    decreases b.len(),
{
    if b.len() == 0 {
        assert(a + b =~= a);
    } else {
        lemma_pos_concat(p, a, b.drop_last());
        assert((a + b).drop_last() =~= a + b.drop_last());
    }
}

} // verus!
