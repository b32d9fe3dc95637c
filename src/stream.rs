//! A streaming input: bytes read on demand from a reader into a growable
//! ring buffer, whose capacity doubles up to a ceiling.

use vstd::prelude::*;

use buf_redux::Buffer;

use crate::input::Input;

verus! {

/// The initial capacity of a stream's buffer.
pub const INITIAL_CAPACITY: usize = 4096;

/// The capacity that a stream's buffer may not reach by doubling.
pub const MAX_CAPACITY: usize = 1024 * 1024 * 1024;

#[verifier::external_type_specification]
#[verifier::external_body]
pub struct ExBuffer(Buffer);

/// The bytes that a buffer holds, oldest first.
pub uninterp spec fn buffered(b: Buffer) -> Seq<u8>;

/// The number of bytes that a buffer can hold without growing.
pub uninterp spec fn buffer_capacity(b: Buffer) -> nat;

/// Relies on `Buffer::with_capacity_ringbuf`: an empty ring buffer of at
/// least the given capacity.
#[verifier::external_body]
fn new_ringbuf(capacity: usize) -> (r: Buffer)
    ensures
        buffered(r) == Seq::<u8>::empty(),
        buffer_capacity(r) >= capacity,
{
    Buffer::with_capacity_ringbuf(capacity)
}

/// Relies on `Buffer::capacity`: the total capacity, which covers the bytes held.
#[verifier::external_body]
fn capacity_of(b: &Buffer) -> (r: usize)
    ensures
        r == buffer_capacity(*b),
        buffered(*b).len() <= r,
{
    b.capacity()
}

/// Relies on `Buffer::free_space`: capacity less the bytes held.
#[verifier::external_body]
fn free_space_of(b: &Buffer) -> (r: usize)
    ensures
        r == buffer_capacity(*b) - buffered(*b).len(),
{
    b.free_space()
}

/// Relies on `Buffer::usable_space`: the room at the tail, at most the free space.
#[verifier::external_body]
fn usable_space_of(b: &Buffer) -> (r: usize)
    ensures
        r <= buffer_capacity(*b) - buffered(*b).len(),
{
    b.usable_space()
}

/// Relies on `Buffer::make_room`: moves the bytes held, keeping them and the capacity.
#[verifier::external_body]
fn make_room(b: &mut Buffer)
    ensures
        buffered(*final(b)) == buffered(*old(b)),
        buffer_capacity(*final(b)) == buffer_capacity(*old(b)),
{
    b.make_room()
}

/// Relies on `Buffer::reserve`: room for at least `additional` more bytes,
/// keeping the bytes held. It panics when the sum overflows.
#[verifier::external_body]
fn reserve(b: &mut Buffer, additional: usize)
    requires
        buffer_capacity(*old(b)) + additional <= usize::MAX,
    ensures
        buffered(*final(b)) == buffered(*old(b)),
        buffer_capacity(*final(b)) >= buffered(*old(b)).len() + additional,
        buffer_capacity(*final(b)) >= buffer_capacity(*old(b)),
{
    b.reserve(additional)
}

/// A reader that appends what it reads to the tail of a buffer, as
/// `Buffer::read_from` does for any `std::io::Read`.
pub trait ByteReader {
    /// One read into `buf`. A count above zero means bytes were appended;
    /// zero means the reader has nothing more; on failure nothing is appended.
    fn read_into(&mut self, buf: &mut Buffer) -> (r: Result<usize, std::io::Error>)
        ensures
            buffered(*old(buf)).is_prefix_of(buffered(*final(buf))),
            buffer_capacity(*final(buf)) == buffer_capacity(*old(buf)),
            r is Err ==> buffered(*final(buf)) == buffered(*old(buf)),
            r matches Ok(n) ==> (n > 0 <==> buffered(*final(buf)).len() > buffered(*old(buf)).len()),
    ;
}

/// Relies on `Buffer::read_from`: one read from the slice, appended at the
/// tail; the slice moves past what was read. A count above zero means bytes
/// were appended; on failure nothing is.
#[verifier::external_body]
fn read_slice(buf: &mut Buffer, src: &mut &[u8]) -> (r: Result<usize, std::io::Error>)
    ensures
        buffered(*old(buf)).is_prefix_of(buffered(*final(buf))),
        buffer_capacity(*final(buf)) == buffer_capacity(*old(buf)),
        r is Err ==> buffered(*final(buf)) == buffered(*old(buf)),
        r matches Ok(n) ==> (n > 0 <==> buffered(*final(buf)).len() > buffered(*old(buf)).len()),
{
    buf.read_from(src)
}

/// A byte slice read from its front.
impl<'a> ByteReader for &'a [u8] {
    fn read_into(&mut self, buf: &mut Buffer) -> (r: Result<usize, std::io::Error>) {
        read_slice(buf, self)
    }
}

/// Relies on `Buffer::consume`: drops bytes from the head.
#[verifier::external_body]
fn consume_front(b: &mut Buffer, amount: usize)
    requires
        amount <= buffered(*old(b)).len(),
    ensures
        buffered(*final(b)) == buffered(*old(b)).skip(amount as int),
        buffer_capacity(*final(b)) == buffer_capacity(*old(b)),
{
    b.consume(amount)
}

/// Relies on `Buffer::buf`: the bytes held.
#[verifier::external_body]
fn held(b: &Buffer) -> (r: &[u8])
    ensures
        r@ == buffered(*b),
{
    b.buf()
}

/// Relies on `std::io::Error::from` on `ErrorKind::OutOfMemory`: the failure
/// of a buffer that may not grow further.
#[verifier::external_body]
fn ceiling_reached() -> (r: std::io::Error) {
    std::io::Error::from(std::io::ErrorKind::OutOfMemory)
}

/// A streaming input over a reader.
#[derive(Debug)]
pub struct InputStream<R> {
    /// The reader that the bytes come from.
    inner: R,
    /// The bytes read and not yet consumed.
    buf: Buffer,
    /// Whether the last read returned no bytes.
    eof: bool,
    /// The capacity that doubling may not reach.
    ceiling: usize,
}

impl<R> InputStream<R> {
    pub closed spec fn held_bytes(&self) -> Seq<u8> {
        buffered(self.buf)
    }

    pub closed spec fn capacity(&self) -> nat {
        buffer_capacity(self.buf)
    }

    pub closed spec fn ceiling_spec(&self) -> usize {
        self.ceiling
    }

    pub closed spec fn ended(&self) -> bool {
        self.eof
    }

    /// A stream with the default initial capacity and ceiling.
    pub fn new(inner: R) -> (r: Self)
        ensures
            r.held_bytes() == Seq::<u8>::empty(),
            !r.ended(),
            r.capacity() >= INITIAL_CAPACITY,
            r.ceiling_spec() == MAX_CAPACITY,
    {
        Self::with_limits(inner, INITIAL_CAPACITY, MAX_CAPACITY)
    }

    /// A stream whose buffer starts with at least `capacity` bytes of room and
    /// doubles only while the doubled capacity does not exceed `ceiling`.
    pub fn with_limits(inner: R, capacity: usize, ceiling: usize) -> (r: Self)
        requires
            capacity > 0,
        ensures
            r.held_bytes() == Seq::<u8>::empty(),
            r.capacity() >= capacity,
            !r.ended(),
            r.ceiling_spec() == ceiling,
    {
        InputStream { inner, buf: new_ringbuf(capacity), eof: false, ceiling }
    }

    /// Makes room for a read. A full buffer doubles when twice its capacity
    /// does not exceed the ceiling, and fails otherwise; a buffer that is not
    /// full keeps its capacity. The bytes held never change.
    pub fn make_space(&mut self) -> (r: Result<(), std::io::Error>)
        ensures
            final(self).held_bytes() == old(self).held_bytes(),
            final(self).ended() == old(self).ended(),
            final(self).ceiling_spec() == old(self).ceiling_spec(),
            final(self).capacity() >= old(self).capacity(),
            old(self).held_bytes().len() < old(self).capacity() ==> r is Ok && final(self).capacity()
                == old(self).capacity(),
            old(self).held_bytes().len() >= old(self).capacity() ==> {
                if 2 * old(self).capacity() <= old(self).ceiling_spec() {
                    &&& r is Ok
                    &&& final(self).capacity() >= 2 * old(self).capacity()
                } else {
                    r is Err && final(self).capacity() == old(self).capacity()
                }
            },
    {
        let free = free_space_of(&self.buf);
        if free == 0 {
            let cap = capacity_of(&self.buf);
            if cap <= self.ceiling && cap <= self.ceiling - cap {
                make_room(&mut self.buf);
                reserve(&mut self.buf, cap);
                Ok(())
            } else {
                Err(ceiling_reached())
            }
        } else {
            let usable = usable_space_of(&self.buf);
            if usable == 0 {
                make_room(&mut self.buf);
            }
            Ok(())
        }
    }

    /// Records the outcome of one read: a read of no bytes marks the end, a
    /// failed read is passed on and changes nothing.
    pub fn finish_read(&mut self, read: Result<usize, std::io::Error>) -> (r: Result<(), std::io::Error>)
        ensures
            final(self).held_bytes() == old(self).held_bytes(),
            final(self).capacity() == old(self).capacity(),
            final(self).ceiling_spec() == old(self).ceiling_spec(),
            read matches Ok(n) ==> r is Ok && final(self).ended() == (n == 0),
            read matches Err(e) ==> r == Err::<(), std::io::Error>(e) && final(self).ended() == old(self).ended(),
    {
        match read {
            Ok(n) => {
                self.eof = n == 0;
                Ok(())
            },
            Err(e) => Err(e),
        }
    }

    /// Discards the first `amount` bytes held, keeping the capacity.
    pub fn discard(&mut self, amount: usize)
        requires
            amount <= old(self).held_bytes().len(),
        ensures
            final(self).held_bytes() == old(self).held_bytes().skip(amount as int),
            final(self).capacity() == old(self).capacity(),
            final(self).ended() == old(self).ended(),
            final(self).ceiling_spec() == old(self).ceiling_spec(),
    {
        consume_front(&mut self.buf, amount);
    }
}

impl<R: ByteReader> InputStream<R> {
    /// Makes room as `make_space` does, then reads once from the reader. A
    /// full buffer whose doubling would exceed the ceiling fails and changes
    /// nothing; a failed read changes nothing; after a successful read the
    /// bytes held have grown by what was read, and the end is marked exactly
    /// when nothing was.
    pub fn refill(&mut self) -> (r: Result<(), std::io::Error>)
        ensures
            final(self).ceiling_spec() == old(self).ceiling_spec(),
            final(self).held_bytes().len() <= final(self).capacity() <= usize::MAX,
            final(self).capacity() >= old(self).capacity(),
            old(self).held_bytes().len() < old(self).capacity() ==> final(self).capacity()
                == old(self).capacity(),
            old(self).held_bytes().len() >= old(self).capacity() ==> {
                if 2 * old(self).capacity() <= old(self).ceiling_spec() {
                    final(self).capacity() >= 2 * old(self).capacity()
                } else {
                    &&& r is Err
                    &&& final(self).capacity() == old(self).capacity()
                }
            },
            r is Err ==> final(self).held_bytes() == old(self).held_bytes() && final(self).ended()
                == old(self).ended(),
            r is Ok ==> {
                &&& old(self).held_bytes().is_prefix_of(final(self).held_bytes())
                &&& final(self).ended() == (final(self).held_bytes().len() == old(self).held_bytes().len())
            },
    {
        let made = self.make_space();
        match made {
            Ok(()) => {},
            Err(e) => {
                let _cap: usize = capacity_of(&self.buf);
                return Err(e);
            },
        }
        let read = self.inner.read_into(&mut self.buf);
        let _cap: usize = capacity_of(&self.buf);
        self.finish_read(read)
    }
}

impl<R: ByteReader> Input for InputStream<R> {
    open spec fn content(&self) -> Seq<u8> {
        self.held_bytes()
    }

    open spec fn at_end(&self) -> bool {
        self.ended()
    }

    /// Makes room, then reads once; a read of no bytes marks the end.
    fn fill_buf(&mut self) -> (r: Result<(), std::io::Error>) {
        self.refill()
    }

    fn eof(&self) -> (r: bool) {
        self.eof
    }

    fn consume(&mut self, amount: usize) {
        self.discard(amount);
    }

    fn buffer(&self) -> (r: &[u8]) {
        held(&self.buf)
    }

    fn is_empty(&self) -> (r: bool) {
        held(&self.buf).len() == 0
    }

    fn len(&self) -> (r: usize) {
        held(&self.buf).len()
    }
}

} // verus!
