//! The scanner: drives a `Splitter` over an `Input`, tracking the position of
//! the next unconsumed byte.

use vstd::prelude::*;

use crate::input::Input;
use crate::position::{lemma_overflow_persists, lemma_pos_advances, lemma_pos_concat, pos_after, NEWLINE};

verus! {

/// An error that scanning can report: built from an I/O failure, and
/// carrying the position at which scanning stopped.
pub trait ScanError: Sized + From<std::io::Error> {
    /// This error with `(line, column)` attached; left unspecified unless
    /// the implementation states it.
    open spec fn with_position(self, line: u64, column: usize) -> Self {
        arbitrary()
    }

    fn position(&mut self, line: u64, column: usize)
        ensures
            *final(self) == old(self).with_position(line, column),
    ;
}

/// What a split decides: a token or none, and how many bytes to consume.
/// `Ok((None, 0))` asks for more bytes.
pub type SplitResult<TokenType, Error> = Result<(Option<TokenType>, usize), Error>;

/// Decides, from the bytes seen so far, whether to ask for more, skip bytes,
/// or emit a token.
pub trait Splitter: Sized {
    type Error: ScanError;
    type TokenType;

    /// The splitter's next state and its decision on `data`, where `eof`
    /// says that no more bytes will follow; left unspecified unless the
    /// implementation states it.
    open spec fn split_spec(&self, data: Seq<u8>, eof: bool) -> (Self, SplitResult<Self::TokenType, Self::Error>) {
        arbitrary()
    }

    /// Splits the start of `data`. Never called with empty `data` unless at
    /// the end of the input.
    fn split(&mut self, data: &[u8], eof: bool) -> (r: SplitResult<Self::TokenType, Self::Error>)
        requires
            data@.len() > 0 || eof,
        ensures
            (*final(self), r) == old(self).split_spec(data@, eof),
            r matches Ok((_, n)) ==> n <= data@.len(),
    ;
}

/// How a call of `scan` ends, as the model below computes it.
pub enum Outcome<T, E> {
    /// A token, or `None` for the end of the input.
    Token(Option<T>),
    /// The splitter failed with this error.
    Failed(E),
    /// A position counter would leave its range.
    Overflow,
    /// The bytes buffered do not decide; the input must be refilled.
    NeedMore,
}

/// What a call of `scan` does with the bytes already buffered, `eof` saying
/// whether the input is at its end: the splitter's state after it, the bytes
/// left, the position of the next byte, and the outcome.
pub open spec fn run_buffered<S: Splitter>(sp: S, data: Seq<u8>, eof: bool, pos: (int, int)) -> (
    S,
    Seq<u8>,
    (int, int),
    Outcome<S::TokenType, S::Error>,
)
    decreases data.len(),
{
    if data.len() == 0 && !eof {
        (sp, data, pos, Outcome::NeedMore)
    } else {
        let (next, r) = sp.split_spec(data, eof);
        match r {
            Err(e) => (next, data, pos, Outcome::Failed(e)),
            Ok((tok, n)) => {
                if n > data.len() {
                    (next, data, pos, Outcome::Token(None))
                } else if tok is None && n == 0 {
                    (next, data, pos, if eof { Outcome::Token(None) } else { Outcome::NeedMore })
                } else {
                    match pos_after(pos, data.take(n as int)) {
                        None => (next, data, pos, Outcome::Overflow),
                        Some(q) => {
                            if tok is None {
                                run_buffered(next, data.skip(n as int), eof, q)
                            } else {
                                (next, data.skip(n as int), q, Outcome::Token(tok))
                            }
                        },
                    }
                }
            },
        }
    }
}

/// What a call of `scan` does when each refill appends the next of `fills`,
/// a chunk of bytes together with whether the input is then at its end. It
/// stops at the first outcome that is not `NeedMore`, or with `NeedMore` once
/// the fills run out (a refill that fails).
pub open spec fn run_refilled<S: Splitter>(
    sp: S,
    data: Seq<u8>,
    eof: bool,
    pos: (int, int),
    fills: Seq<(Seq<u8>, bool)>,
) -> (S, Seq<u8>, (int, int), Outcome<S::TokenType, S::Error>)
    decreases fills.len(),
{
    let (s1, rest, q, out) = run_buffered(sp, data, eof, pos);
    if out is NeedMore && fills.len() > 0 {
        run_refilled(s1, rest + fills[0].0, fills[0].1, q, fills.drop_first())
    } else {
        (s1, rest, q, out)
    }
}

/// Whether `r` is what `scan` returns for the outcome `out`, at the position
/// `(line, column)` where it stopped; a refill that fails is an error.
pub open spec fn reports<S: Splitter>(
    out: Outcome<S::TokenType, S::Error>,
    r: Result<Option<S::TokenType>, S::Error>,
    line: u64,
    column: usize,
) -> bool {
    match out {
        Outcome::Token(t) => r == Ok::<Option<S::TokenType>, S::Error>(t),
        Outcome::Failed(e) => r == Err::<Option<S::TokenType>, S::Error>(e.with_position(line, column)),
        _ => r is Err,
    }
}

/// A run that ends needing more goes on, after one more fill, as the bytes
/// left plus that fill decide.
pub proof fn lemma_refill_once<S: Splitter>(
    sp: S,
    data: Seq<u8>,
    eof: bool,
    pos: (int, int),
    fills: Seq<(Seq<u8>, bool)>,
    c: (Seq<u8>, bool),
)
    requires
        run_refilled(sp, data, eof, pos, fills).3 is NeedMore,
    ensures
        ({
            let (s1, rest, q, _out) = run_refilled(sp, data, eof, pos, fills);
            run_refilled(sp, data, eof, pos, fills.push(c)) == run_buffered(s1, rest + c.0, c.1, q)
        }),
    decreases fills.len(),
{
    let (s1, rest, q, out) = run_buffered(sp, data, eof, pos);
    if fills.len() == 0 {
        assert(fills.push(c).drop_first() =~= Seq::<(Seq<u8>, bool)>::empty());
        assert(out is NeedMore);
        assert(fills.push(c)[0] == c);
        let (s2, rest2, q2, out2) = run_buffered(s1, rest + c.0, c.1, q);
        assert(run_refilled(s1, rest + c.0, c.1, q, Seq::<(Seq<u8>, bool)>::empty()) == (s2, rest2, q2, out2));
    } else {
        assert(out is NeedMore);
        assert(fills.push(c)[0] == fills[0]);
        assert(fills.push(c).drop_first() =~= fills.drop_first().push(c));
        lemma_refill_once(s1, rest + fills[0].0, fills[0].1, q, fills.drop_first(), c);
    }
}

/// Relies on `std::io::Error::new`: an error for a position counter that
/// cannot move further.
#[verifier::external_body]
fn position_overflow() -> (r: std::io::Error) {
    std::io::Error::new(std::io::ErrorKind::InvalidData, "position counter overflow")
}

/// Steps through the tokens of an input, skipping the bytes between them.
/// Scanning stops for good at the end of the input or at the first error.
#[derive(Debug)]
pub struct Scanner<I: Input, S: Splitter> {
    input: I,
    splitter: S,
    /// The line of the next unconsumed byte, from 1.
    line: u64,
    /// The column of the next unconsumed byte, in bytes, from 1.
    column: usize,
}

impl<I: Input, S: Splitter> Scanner<I, S> {
    pub closed spec fn source(&self) -> I {
        self.input
    }

    pub closed spec fn splitter_state(&self) -> S {
        self.splitter
    }

    pub closed spec fn line_spec(&self) -> u64 {
        self.line
    }

    pub closed spec fn column_spec(&self) -> usize {
        self.column
    }

    /// The position of the next unconsumed byte.
    pub open spec fn pos(&self) -> (int, int) {
        (self.line_spec() as int, self.column_spec() as int)
    }

    pub fn new(input: I, splitter: S) -> (r: Scanner<I, S>)
        ensures
            r.source() == input,
            r.splitter_state() == splitter,
            r.line_spec() == 1,
            r.column_spec() == 1,
    {
        Scanner { input, splitter, line: 1, column: 1 }
    }

    /// The current line number.
    pub fn line(&self) -> (r: u64)
        ensures
            r == self.line_spec(),
    {
        self.line
    }

    /// The current column number (a byte offset, not a character offset).
    pub fn column(&self) -> (r: usize)
        ensures
            r == self.column_spec(),
    {
        self.column
    }

    pub fn splitter(&self) -> (r: &S)
        ensures
            *r == self.splitter_state(),
    {
        &self.splitter
    }

    /// Rebinds the scanner to a fresh input, as if it had never been used;
    /// the splitter's state is kept.
    pub fn reset(&mut self, input: I)
        ensures
            final(self).source() == input,
            final(self).splitter_state() == old(self).splitter_state(),
            final(self).line_spec() == 1,
            final(self).column_spec() == 1,
    {
        self.input = input;
        self.line = 1;
        self.column = 1;
    }

    /// Consumes `amount` bytes of the buffer and moves the position past
    /// them. Returns false, changing nothing, when a counter would overflow.
    pub fn consume(&mut self, amount: usize) -> (ok: bool)
        requires
            amount <= old(self).source().content().len(),
        ensures
            final(self).splitter_state() == old(self).splitter_state(),
            match pos_after(old(self).pos(), old(self).source().content().take(amount as int)) {
                Some(q) => {
                    &&& ok
                    &&& final(self).pos() == q
                    &&& final(self).source().content() == old(self).source().content().skip(amount as int)
                    &&& final(self).source().at_end() == old(self).source().at_end()
                },
                None => !ok && *final(self) == *old(self),
            },
    {
        let buf = self.input.buffer();
        let ghost p = self.pos();
        let mut line: u64 = self.line;
        let mut column: usize = self.column;
        let mut i: usize = 0;
        assert(buf@.take(0) =~= Seq::<u8>::empty());
        while i < amount
            invariant
                i <= amount <= buf@.len(),
                buf@ == self.input.content(),
                p == self.pos(),
                pos_after(p, buf@.take(i as int)) == Some((line as int, column as int)),
            decreases amount - i,
        {
            let b = buf[i];
            assert(buf@.take(i + 1).drop_last() =~= buf@.take(i as int));
            if b == NEWLINE {
                if line == u64::MAX {
                    proof {
                        lemma_overflow_persists(p, buf@, i + 1, amount as int);
                    }
                    return false;
                }
                line = line + 1;
                column = 1;
            } else {
                if column == usize::MAX {
                    proof {
                        lemma_overflow_persists(p, buf@, i + 1, amount as int);
                    }
                    return false;
                }
                column = column + 1;
            }
            i = i + 1;
        }
        self.line = line;
        self.column = column;
        self.input.consume(amount);
        true
    }

    /// An error for a failure at the current position.
    fn fail(&self, mut e: S::Error) -> (r: S::Error)
        ensures
            r == e.with_position(self.line_spec(), self.column_spec()),
    {
        e.position(self.line, self.column);
        e
    }

    /// Advances to the next token: `Ok(Some(token))`, `Ok(None)` at the end
    /// of the input, or the first error, with the position attached.
    ///
    /// Where the bytes already buffered decide, the call does what
    /// `run_buffered` computes; on an input at its end they always do. On any
    /// input the call does what `run_refilled` computes for the chunks that
    /// its refills appended, a failed refill being an error; `Ok(None)` comes
    /// only at the end.
    pub fn scan(&mut self) -> (r: Result<Option<S::TokenType>, S::Error>)
        ensures
            ({
                let (sp, rest, q, out) = run_buffered(
                    old(self).splitter_state(),
                    old(self).source().content(),
                    old(self).source().at_end(),
                    old(self).pos(),
                );
                out != Outcome::<S::TokenType, S::Error>::NeedMore ==> {
                    &&& final(self).splitter_state() == sp
                    &&& final(self).source().content() == rest
                    &&& final(self).source().at_end() == old(self).source().at_end()
                    &&& final(self).pos() == q
                    &&& match out {
                        Outcome::Token(t) => r == Ok::<Option<S::TokenType>, S::Error>(t),
                        Outcome::Failed(e) => r == Err::<Option<S::TokenType>, S::Error>(
                            e.with_position(final(self).line_spec(), final(self).column_spec()),
                        ),
                        _ => r is Err,
                    }
                }
            }),
            exists|fills: Seq<(Seq<u8>, bool)>|
                #![trigger run_refilled(
                    old(self).splitter_state(),
                    old(self).source().content(),
                    old(self).source().at_end(),
                    old(self).pos(),
                    fills,
                )]
                {
                    let (sp, rest, q, out) = run_refilled(
                        old(self).splitter_state(),
                        old(self).source().content(),
                        old(self).source().at_end(),
                        old(self).pos(),
                        fills,
                    );
                    &&& final(self).splitter_state() == sp
                    &&& final(self).source().content() == rest
                    &&& final(self).pos() == q
                    &&& reports::<S>(out, r, final(self).line_spec(), final(self).column_spec())
                },
            exists|taken: Seq<u8>|
                pos_after(old(self).pos(), taken) == Some(final(self).pos())
                    && old(self).source().content().is_prefix_of(taken + final(self).source().content()),
            r matches Ok(None) ==> final(self).source().at_end(),
            r matches Err(e) ==> exists|e0: S::Error|
                e == e0.with_position(final(self).line_spec(), final(self).column_spec()),
    {
        let ghost model = run_buffered(self.splitter, self.input.content(), self.input.at_end(), self.pos());
        let mut n: usize = self.input.len();
        let ghost mut taken = Seq::<u8>::empty();
        let ghost mut fills = Seq::<(Seq<u8>, bool)>::empty();
        assert(taken + self.input.content() =~= self.input.content());
        loop
            invariant
                pos_after(old(self).pos(), taken) == Some(self.pos()),
                run_refilled(
                    old(self).splitter_state(),
                    old(self).source().content(),
                    old(self).source().at_end(),
                    old(self).pos(),
                    fills,
                ) == run_buffered(self.splitter, self.input.content(), self.input.at_end(), self.pos()),
                old(self).source().content().is_prefix_of(taken + self.input.content()),
                n == self.input.content().len(),
                model == run_buffered(
                    old(self).splitter_state(),
                    old(self).source().content(),
                    old(self).source().at_end(),
                    old(self).pos(),
                ),
                model.3 != Outcome::<S::TokenType, S::Error>::NeedMore ==> {
                    &&& self.input.at_end() == old(self).source().at_end()
                    &&& run_buffered(self.splitter, self.input.content(), self.input.at_end(), self.pos()) == model
                },
            decreases
                u64::MAX - self.line,
                usize::MAX - self.column,
                if self.input.at_end() { 0int } else { 1int },
                usize::MAX - n,
        {
            let eof = self.input.eof();
            let ghost pre = run_buffered(self.splitter, self.input.content(), self.input.at_end(), self.pos());
            if !self.input.is_empty() || eof {
                let ghost data = self.input.content();
                let ghost before = self.pos();
                let res = self.splitter.split(self.input.buffer(), eof);
                match res {
                    Err(e) => {
                        return Err(self.fail(e));
                    },
                    Ok((tok, amount)) => {
                        if tok.is_some() || amount > 0 {
                            if !self.consume(amount) {
                                let e = S::Error::from(position_overflow());
                                return Err(self.fail(e));
                            }
                            proof {
                                if amount > 0 {
                                    lemma_pos_advances(before, data.take(amount as int));
                                }
                                lemma_pos_concat(old(self).pos(), taken, data.take(amount as int));
                                assert(taken + data.take(amount as int) + data.skip(amount as int) =~= taken + data);
                                taken = taken + data.take(amount as int);
                            }
                            if tok.is_some() {
                                return Ok(tok);
                            }
                            n = self.input.len();
                            continue;
                        }
                    },
                }
            }
            if eof {
                return Ok(None);
            }
            assert(pre == (self.splitter, self.input.content(), self.pos(), Outcome::<S::TokenType, S::Error>::NeedMore));
            let ghost held = self.input.content();
            match self.input.fill_buf() {
                Ok(()) => {},
                Err(e) => {
                    let e = S::Error::from(e);
                    return Err(self.fail(e));
                },
            }
            proof {
                let c = (self.input.content().skip(held.len() as int), self.input.at_end());
                lemma_refill_once(
                    old(self).splitter_state(),
                    old(self).source().content(),
                    old(self).source().at_end(),
                    old(self).pos(),
                    fills,
                    c,
                );
                assert(held + c.0 =~= self.input.content());
                fills = fills.push(c);
            }
            n = self.input.len();
        }
    }
}

} // verus!
