//! Error kinds of input and output, byte writers over in-memory buffers, and
//! the small decisions that the network endpoints take on their errors.

use vstd::prelude::*;
use crate::codec::{DecodeError, EncodeError};

verus! {

/// The kinds of input and output errors that the library tells apart.
#[derive(Clone, Copy, Debug, PartialEq, Eq, Structural)]
pub enum IoErrorKind {
    WouldBlock,
    TimedOut,
    UnexpectedEof,
    WriteZero,
    FileTooLarge,
    Other,
}

/// `new` is `old` followed by a prefix of `buf`.
pub open spec fn appended(old: Seq<u8>, new: Seq<u8>, buf: Seq<u8>) -> bool {
    &&& old.len() <= new.len() <= old.len() + buf.len()
    &&& new == old + buf.take(new.len() - old.len())
}

/// Something bytes can be written to, in order.
pub trait ByteWrite {
    /// The writer's own consistency condition.
    spec fn inv(&self) -> bool;

    /// Every byte written so far, in order.
    spec fn written(&self) -> Seq<u8>;

    /// How many more bytes the writer takes, for a writer that is known to
    /// take bytes until it is full and never to fail; `None` for a writer
    /// that promises no such thing.
    spec fn room(&self) -> Option<nat>;

    /// Writes a prefix of `buf` and returns its length. `Ok(0)` for a
    /// nonempty `buf` means the writer is full; an error means nothing was
    /// written.
    fn write(&mut self, buf: &[u8]) -> (r: Result<usize, IoErrorKind>)
        requires
            old(self).inv(),
        ensures
            final(self).inv(),
            appended(old(self).written(), final(self).written(), buf@),
            r matches Ok(n) ==> final(self).written().len() == old(self).written().len() + n,
            r is Err ==> final(self).written() == old(self).written(),
            old(self).room() matches Some(k) ==> {
                let n = if k < buf@.len() { k } else { buf@.len() };
                &&& r == Ok::<usize, IoErrorKind>(n as usize)
                &&& final(self).room() == Some((k - n) as nat)
                &&& final(self).written() == old(self).written() + buf@.take(n as int)
            },
    ;

    /// Flushes buffered bytes; what has been written stays as it is.
    fn flush(&mut self) -> (r: Result<(), IoErrorKind>)
        requires
            old(self).inv(),
        ensures
            final(self).inv(),
            final(self).written() == old(self).written(),
            old(self).room() is Some ==> r == Ok::<(), IoErrorKind>(()) && final(self).room() == old(self).room(),
    ;
}

/// A cursor that writes into a buffer from the front. The bytes past the
/// position are not part of what was written, whatever they hold.
pub struct UninitCursor<'a> {
    storage: &'a mut [u8],
    pos: usize,
}

impl<'a> UninitCursor<'a> {
    /// The number of bytes the buffer holds.
    pub closed spec fn capacity(&self) -> nat {
        self.storage@.len()
    }

    /// The position of the next byte to write.
    pub closed spec fn spec_pos(&self) -> usize {
        self.pos
    }

    /// The part of the buffer not written yet.
    pub closed spec fn unwritten(&self) -> Seq<u8> {
        self.storage@.skip(self.pos as int)
    }

    /// A cursor at the start of `storage`.
    pub fn new(storage: &'a mut [u8]) -> (r: UninitCursor<'a>)
        ensures
            r.inv(),
            r.spec_pos() == 0,
            r.written() == Seq::<u8>::empty(),
            r.capacity() == old(storage)@.len(),
    {
        let r = UninitCursor { storage, pos: 0 };
        assert(r.written() =~= Seq::<u8>::empty());
        r
    }

    /// The bytes written so far, and the part of the buffer not written yet.
    pub fn split(&self) -> (r: (&[u8], &[u8]))
        requires
            self.inv(),
        ensures
            r.0@ == self.written(),
            r.1@ == self.unwritten(),
            r.0@.len() == self.spec_pos(),
            r.1@.len() == self.capacity() - self.spec_pos(),
    {
        proof {
            self.lemma_lengths();
        }
        self.storage.split_at(self.pos)
    }

    /// What was written is as long as the position, and what is left to
    /// write fills the rest of the buffer.
    pub proof fn lemma_lengths(&self)
        requires
            self.inv(),
        ensures
            self.written().len() == self.spec_pos(),
            self.unwritten().len() == self.capacity() - self.spec_pos(),
    {
    }
}

impl<'a> ByteWrite for UninitCursor<'a> {
    open spec fn inv(&self) -> bool {
        self.spec_pos() <= self.capacity()
    }

    closed spec fn written(&self) -> Seq<u8> {
        self.storage@.take(self.pos as int)
    }

    /// The part of the buffer not written yet.
    open spec fn room(&self) -> Option<nat> {
        Some((self.capacity() - self.spec_pos()) as nat)
    }

    /// Writes as much of `buf` as there is room for.
    fn write(&mut self, buf: &[u8]) -> (r: Result<usize, IoErrorKind>)
        ensures
            r == Ok::<usize, IoErrorKind>(
                if old(self).capacity() - old(self).spec_pos() < buf@.len() {
                    (old(self).capacity() - old(self).spec_pos()) as usize
                } else {
                    buf@.len() as usize
                }),
            final(self).capacity() == old(self).capacity(),
            final(self).spec_pos() == old(self).spec_pos() + r->Ok_0,
    {
        let remaining = self.storage.len() - self.pos;
        let to_write = if remaining < buf.len() { remaining } else { buf.len() };
        let ghost before = self.written();
        let ghost pos0 = self.pos;
        let ghost len0 = self.storage@.len();
        let mut i: usize = 0;
        while i < to_write
            invariant
                i <= to_write,
                to_write <= buf@.len(),
                self.pos == pos0,
                self.storage@.len() == len0,
                len0 <= usize::MAX,
                self.pos + to_write <= self.storage@.len(),
                self.storage@.take(self.pos as int) == before,
                self.storage@.subrange(self.pos as int, self.pos + i) == buf@.take(i as int),
            decreases to_write - i,
        {
            let p = self.pos + i;
            let ghost s0 = self.storage@;
            self.storage[p] = buf[i];
            i = i + 1;
            proof {
                assert(self.storage@.take(self.pos as int) =~= s0.take(self.pos as int));
                assert(self.storage@.subrange(self.pos as int, self.pos + i) =~= buf@.take(i as int));
            }
        }
        self.pos = self.pos + to_write;
        proof {
            assert(self.written() =~= before + buf@.take(to_write as int));
        }
        Ok(to_write)
    }

    /// Nothing is buffered: flushing always succeeds and changes nothing.
    fn flush(&mut self) -> (r: Result<(), IoErrorKind>)
        ensures
            r == Ok::<(), IoErrorKind>(()),
            *final(self) == *old(self),
    {
        Ok(())
    }
}

/// Writes the whole of `buf`, in as many writes as it takes. A write that
/// takes nothing ends it with `WriteZero`; a failed write ends it with its
/// error. What was written stays written either way.
pub fn write_all<W: ByteWrite>(w: &mut W, buf: &[u8]) -> (r: Result<(), IoErrorKind>)
    requires
        old(w).inv(),
    ensures
        final(w).inv(),
        appended(old(w).written(), final(w).written(), buf@),
        r is Ok <==> final(w).written() == old(w).written() + buf@,
        old(w).room() matches Some(k) ==> (r is Ok <==> buf@.len() <= k),
        old(w).room() matches Some(k) ==> (buf@.len() <= k ==> final(w).room() == Some((k - buf@.len()) as nat)),
{
    let ghost w0 = w.written();
    let buf_len = buf.len();
    let mut rest: &[u8] = buf;
    let mut done: usize = 0;
    while rest.len() > 0
        invariant
            w.inv(),
            w0 == old(w).written(),
            buf@.len() == buf_len,
            done <= buf@.len(),
            rest@ == buf@.skip(done as int),
            w.written() == w0 + buf@.take(done as int),
            old(w).room() matches Some(k) ==> done <= k && w.room() == Some((k - done) as nat),
        decreases rest@.len(),
    {
        let ghost before = w.written();
        match w.write(rest) {
            Ok(n) => {
                assert(n <= rest@.len());
                assert(rest@.len() == buf@.len() - done);
                if n == 0 {
                    assert(w.written() =~= before);
                    assert((w0 + buf@.take(done as int)).len() - w0.len() == done);
                    assert(appended(w0, w.written(), buf@));
                    assert(w.written().len() < (w0 + buf@).len());
                    return Err(IoErrorKind::WriteZero);
                }
                proof {
                    assert(buf@.take(done as int) + rest@.take(n as int) =~= buf@.take(done + n));
                    assert(w.written() =~= w0 + buf@.take(done + n));
                }
                let (_, tail) = rest.split_at(n);
                rest = tail;
                done = done + n;
                proof {
                    assert(rest@ =~= buf@.skip(done as int));
                }
            },
            Err(e) => {
                assert((w0 + buf@.take(done as int)).len() - w0.len() == done);
                assert(appended(w0, w.written(), buf@));
                assert(w.written().len() < (w0 + buf@).len());
                return Err(e);
            },
        }
    }
    proof {
        assert(buf@.take(done as int) =~= buf@);
    }
    Ok(())
}

/// Two writers chained as if they were one: bytes go to the first until it
/// takes no more, then to the second.
pub struct ChainedWriter<W1, W2> {
    first: W1,
    second: W2,
    using_first: bool,
}

impl<W1: ByteWrite, W2: ByteWrite> ChainedWriter<W1, W2> {
    pub closed spec fn spec_first(&self) -> W1 {
        self.first
    }

    pub closed spec fn spec_second(&self) -> W2 {
        self.second
    }

    /// Whether bytes still go to the first writer.
    pub closed spec fn spec_using_first(&self) -> bool {
        self.using_first
    }

    /// Chains `first` and `second`; the second must not have been written to.
    pub fn new(first: W1, second: W2) -> (r: Self)
        requires
            first.inv(),
            second.inv(),
            second.written().len() == 0,
        ensures
            r.inv(),
            r.spec_first() == first,
            r.spec_second() == second,
            r.spec_using_first(),
            r.written() == first.written(),
            (first.room(), second.room()) matches (Some(a), Some(b)) ==> r.room() == Some(a + b),
    {
        let r = ChainedWriter { first, second, using_first: true };
        assert(r.written() =~= first.written());
        r
    }

    /// The two writers.
    pub fn into_inner(self) -> (r: (W1, W2))
        ensures
            r.0 == self.spec_first(),
            r.1 == self.spec_second(),
    {
        (self.first, self.second)
    }
}

impl<W1: ByteWrite, W2: ByteWrite> ByteWrite for ChainedWriter<W1, W2> {
    /// Both writers are consistent, and nothing went to the second while the
    /// first is in use.
    open spec fn inv(&self) -> bool {
        &&& self.spec_first().inv()
        &&& self.spec_second().inv()
        &&& self.spec_using_first() ==> self.spec_second().written().len() == 0
    }

    /// What went to the first writer, then what went to the second.
    open spec fn written(&self) -> Seq<u8> {
        self.spec_first().written() + self.spec_second().written()
    }

    /// The room of both writers while the first is in use, else that of the
    /// second.
    open spec fn room(&self) -> Option<nat> {
        if self.spec_using_first() {
            match (self.spec_first().room(), self.spec_second().room()) {
                (Some(a), Some(b)) => Some(a + b),
                _ => None,
            }
        } else {
            self.spec_second().room()
        }
    }

    /// Bytes go to the first writer while it is in use; once it takes less
    /// than it is given, the rest goes to the second, for good. With the
    /// second in use, an empty write succeeds with 0 and changes nothing. An
    /// error of the first writer other than `WriteZero` is returned as it is,
    /// with the first writer still in use.
    fn write(&mut self, buf: &[u8]) -> (r: Result<usize, IoErrorKind>)
        ensures
            final(self).spec_using_first() ==> old(self).spec_using_first(),
            !old(self).spec_using_first() ==> final(self).spec_first() == old(self).spec_first(),
            final(self).spec_using_first() ==> final(self).spec_second() == old(self).spec_second(),
            final(self).spec_using_first() && r is Ok ==>
                final(self).spec_first().written() == old(self).spec_first().written() + buf@,
            !old(self).spec_using_first() && buf@.len() == 0 ==>
                r == Ok::<usize, IoErrorKind>(0) && *final(self) == *old(self),
            r matches Ok(n) && n < buf@.len() ==> !final(self).spec_using_first(),
            old(self).spec_using_first() && final(self).spec_using_first() && r is Err ==> {
                &&& r != Err::<usize, IoErrorKind>(IoErrorKind::WriteZero)
                &&& final(self).spec_first().written() == old(self).spec_first().written()
                &&& final(self).spec_second() == old(self).spec_second()
            },
    {
        let ghost w0 = self.written();
        let buf_len = buf.len();
        let mut total: usize = 0;
        let mut rest: &[u8] = buf;
        if self.using_first {
            match self.first.write(rest) {
                Ok(n) => {
                    total = n;
                    let (_, tail) = rest.split_at(n);
                    rest = tail;
                    if rest.len() != 0 {
                        self.using_first = false;
                    } else {
                        assert(self.written() =~= w0 + buf@.take(n as int));
                        assert(buf@.take(n as int) =~= buf@);
                        return Ok(total);
                    }
                },
                Err(IoErrorKind::WriteZero) => {
                    self.using_first = false;
                },
                Err(e) => {
                    return Err(e);
                },
            }
        }
        let ghost mid = self.written();
        assert(mid =~= w0 + buf@.take(total as int));
        assert(rest@ =~= buf@.skip(total as int));
        assert(total + rest@.len() == buf@.len());
        if rest.len() != 0 {
            match self.second.write(rest) {
                Ok(n) => {
                    assert(n <= rest@.len());
                    total = total + n;
                },
                Err(e) => {
                    if total == 0 {
                        return Err(e);
                    }
                },
            }
        }
        proof {
            let k = (self.written().len() - w0.len()) as int;
            assert(self.written() =~= w0 + buf@.take(k));
        }
        Ok(total)
    }

    /// Flushes the first writer while it is in use, then the second.
    fn flush(&mut self) -> (r: Result<(), IoErrorKind>)
        ensures
            final(self).spec_using_first() == old(self).spec_using_first(),
            !old(self).spec_using_first() ==> final(self).spec_first() == old(self).spec_first(),
    {
        if self.using_first {
            self.first.flush()?;
        }
        self.second.flush()
    }
}

/// Two cursors chained act as one cursor: the chained writer always has a
/// known room, the room left in both while the first is in use, so each
/// write takes as much of its bytes as that room allows, never fails, and
/// appends what it takes to what was written.
pub proof fn lemma_chained_cursors_are_one_cursor<'a, 'b>(w: ChainedWriter<UninitCursor<'a>, UninitCursor<'b>>)
    requires
        w.inv(),
    ensures
        w.room() == Some(
            if w.spec_using_first() {
                ((w.spec_first().capacity() - w.spec_first().spec_pos())
                    + (w.spec_second().capacity() - w.spec_second().spec_pos())) as nat
            } else {
                (w.spec_second().capacity() - w.spec_second().spec_pos()) as nat
            }),
{
}

/// Whether an error kind means that an operation timed out: a non-blocking
/// operation that would block, or a time-out.
pub fn io_err_is_timeout(e: IoErrorKind) -> (r: bool)
    ensures
        r == (e == IoErrorKind::WouldBlock || e == IoErrorKind::TimedOut),
{
    match e {
        IoErrorKind::WouldBlock | IoErrorKind::TimedOut => true,
        _ => false,
    }
}

/// A datagram of `len` bytes went out whole only when all `len` bytes were
/// sent; otherwise the message was too large for the transport.
pub fn sent_all(n_sent: usize, len: usize) -> (r: Result<(), IoErrorKind>)
    ensures
        r == if n_sent == len { Ok::<(), IoErrorKind>(()) } else { Err(IoErrorKind::FileTooLarge) },
{
    if n_sent == len { Ok(()) } else { Err(IoErrorKind::FileTooLarge) }
}

/// The error kind a failed decoding is reported as: input that ends too
/// early is an unexpected end of file, anything else is another error.
pub fn decode_error_kind(e: DecodeError) -> (r: IoErrorKind)
    ensures
        r == if e == DecodeError::UnexpectedEnd { IoErrorKind::UnexpectedEof } else { IoErrorKind::Other },
{
    match e {
        DecodeError::UnexpectedEnd => IoErrorKind::UnexpectedEof,
        _ => IoErrorKind::Other,
    }
}

/// The error kind a failed encoding is reported as.
pub fn encode_error_kind(e: EncodeError) -> (r: IoErrorKind)
    ensures
        r == IoErrorKind::Other,
{
    IoErrorKind::Other
}

/// The size in bytes of an audio stream message header on the wire: the
/// byte index (8 bytes) and the byte count (4 bytes).
pub const AUDIO_STREAM_MESSAGE_HEADER_SIZE: usize = 12;
/// The size in bytes of an audio message header on the wire: the stream
/// index (4 bytes) and the stream message header.
pub const AUDIO_MESSAGE_HEADER_SIZE: usize = 16;

} // verus!
