//! Byte sources: the `Input` capability and its in-memory variants.

use vstd::prelude::*;

verus! {

#[verifier::external_type_specification]
#[verifier::external_body]
pub struct ExIoError(std::io::Error);

/// A source of bytes: a window of buffered, unconsumed bytes, and a flag that
/// says whether the origin will ever deliver more.
pub trait Input {
    /// The bytes currently available and not yet consumed.
    spec fn content(&self) -> Seq<u8>;

    /// True when the origin has no more bytes to deliver.
    spec fn at_end(&self) -> bool;

    /// True when all of the origin is already held: refilling then does
    /// nothing and succeeds.
    open spec fn complete(&self) -> bool {
        false
    }

    /// Pulls more bytes from the origin into the buffer. A successful call
    /// either appends bytes or reaches the end of the origin.
    fn fill_buf(&mut self) -> (r: Result<(), std::io::Error>)
        ensures
            final(self).content().len() <= usize::MAX,
            old(self).content().is_prefix_of(final(self).content()),
            r is Ok ==> final(self).at_end() || final(self).content().len() > old(self).content().len(),
            r is Err ==> final(self).content() == old(self).content() && final(self).at_end() == old(self).at_end(),
            old(self).complete() ==> r is Ok && final(self).content() == old(self).content() && final(self).at_end()
                && final(self).complete(),
    ;

    fn eof(&self) -> (r: bool)
        ensures
            r == self.at_end(),
    ;

    /// Discards the first `amount` bytes of the buffer.
    fn consume(&mut self, amount: usize)
        requires
            amount <= old(self).content().len(),
        ensures
            final(self).content() == old(self).content().skip(amount as int),
            final(self).at_end() == old(self).at_end(),
    ;

    fn buffer(&self) -> (r: &[u8])
        ensures
            r@ == self.content(),
    ;

    fn is_empty(&self) -> (r: bool)
        ensures
            r == (self.content().len() == 0),
    ;

    fn len(&self) -> (r: usize)
        ensures
            r == self.content().len(),
    ;
}

/// A complete sequence held in memory: always at its end; consuming moves the
/// view forward without copying.
impl<'a> Input for &'a [u8] {
    open spec fn content(&self) -> Seq<u8> {
        self@
    }

    open spec fn at_end(&self) -> bool {
        true
    }

    open spec fn complete(&self) -> bool {
        true
    }

    fn fill_buf(&mut self) -> (r: Result<(), std::io::Error>) {
        let _held: usize = (*self).len();
        Ok(())
    }

    fn eof(&self) -> (r: bool) {
        true
    }

    fn consume(&mut self, amount: usize) {
        let n = (*self).len();
        *self = vstd::slice::slice_subrange(*self, amount, n);
    }

    fn buffer(&self) -> (r: &[u8]) {
        *self
    }

    fn is_empty(&self) -> (r: bool) {
        (*self).len() == 0
    }

    fn len(&self) -> (r: usize) {
        (*self).len()
    }
}

/// A complete sequence owned in memory: always at its end.
impl Input for Vec<u8> {
    open spec fn content(&self) -> Seq<u8> {
        self@
    }

    open spec fn at_end(&self) -> bool {
        true
    }

    open spec fn complete(&self) -> bool {
        true
    }

    fn fill_buf(&mut self) -> (r: Result<(), std::io::Error>) {
        let _held: usize = Vec::len(self);
        Ok(())
    }

    fn eof(&self) -> (r: bool) {
        true
    }

    fn consume(&mut self, amount: usize) {
        let rest = self.split_off(amount);
        *self = rest;
    }

    fn buffer(&self) -> (r: &[u8]) {
        self.as_slice()
    }

    fn is_empty(&self) -> (r: bool) {
        Vec::is_empty(self)
    }

    fn len(&self) -> (r: usize) {
        Vec::len(self)
    }
}

} // verus!
