use vstd::prelude::*;

use core::ops::{Deref, DerefMut};

use crate::fuse::Fuse;
use crate::io_support::new_io_error;
use crate::sink::IterSink;
use crate::sink::sends_all;
use crate::write::{
    drains, flush_result, law_vec_drains, lemma_drains_extend, stalls, write_failure, BlockingWrite,
};
use crate::buffer::{appended, handed_over};
use crate::{Buffer, Encoder};

verus! {

/// The send high-water mark a new writer starts with: 2^17 bytes, which is
/// slightly over 60% of the default TCP send buffer size (SO_SNDBUF).
pub const DEFAULT_SEND_HIGH_WATER_MARK: usize = 131072;

/// The capacity of a new write buffer.
const WRITE_BUFFER_CAPACITY: usize = 8224;

/// The error reported when a writer accepts no byte of a non-empty write.
pub(crate) fn err_eof() -> std::io::Error {
    new_io_error(std::io::ErrorKind::UnexpectedEof, "End of file")
}

/// The write half of a framed transport: a buffer of encoded bytes in front of `inner`.
pub struct FramedWriteImpl<F, B> {
    pub inner: F,
    pub high_water_mark: usize,
    pub buffer: B,
    /// Every byte reported as taken so far, in order: by the writes of `ready` and
    /// `flush`, and by the counts handed to `take_written`.
    pub accepted: Ghost<Seq<u8>>,
}

impl<F, B: Buffer> FramedWriteImpl<F, B> {
    pub fn new(inner: F) -> (r: Self)
        ensures
            r.inner == inner,
            r.high_water_mark == DEFAULT_SEND_HIGH_WATER_MARK,
            r.buffer@ == Seq::<u8>::empty(),
            r.accepted@ == Seq::<u8>::empty(),
    {
        FramedWriteImpl {
            inner,
            high_water_mark: DEFAULT_SEND_HIGH_WATER_MARK,
            buffer: B::with_capacity(WRITE_BUFFER_CAPACITY),
            accepted: Ghost(Seq::empty()),
        }
    }

    pub fn release(self) -> (r: F)
        ensures
            r == self.inner,
    {
        self.inner
    }

    /// Whether the buffer has reached the high-water mark, so that bytes must be
    /// written out before another item is accepted.
    pub fn over_high_water_mark(&self) -> (over: bool)
        ensures
            over == (self.buffer@.len() >= self.high_water_mark),
    {
        self.buffer.len() >= self.high_water_mark
    }

    /// Accounts for a write that took `num_write` bytes from the front of the buffer.
    /// A write that took nothing means the writer is at its end: the buffer is kept
    /// and an `UnexpectedEof` error is returned.
    pub fn take_written(&mut self, num_write: usize) -> (r: Result<(), std::io::Error>)
        requires
            num_write <= old(self).buffer@.len(),
        ensures
            r is Ok <==> num_write > 0,
            final(self).inner == old(self).inner,
            final(self).high_water_mark == old(self).high_water_mark,
            final(self).accepted@ == old(self).accepted@ + old(self).buffer@.take(num_write as int),
            final(self).buffer@ == old(self).buffer@.skip(num_write as int),
    {
        if num_write == 0 {
            assert(old(self).buffer@.skip(0) =~= old(self).buffer@);
            assert(old(self).accepted@ + old(self).buffer@.take(0) =~= old(self).accepted@);
            Err(err_eof())
        } else {
            self.accepted = Ghost(self.accepted@ + self.buffer@.take(num_write as int));
            self.buffer.advance(num_write);
            Ok(())
        }
    }
}

impl<F, B> core::ops::Deref for FramedWriteImpl<F, B> {
    type Target = F;

    fn deref(&self) -> (r: &F)
        ensures
            *r == self.inner,
    {
        &self.inner
    }
}

impl<F, B> core::ops::DerefMut for FramedWriteImpl<F, B> {
    fn deref_mut(&mut self) -> (r: &mut F)
        ensures
            *r == old(self).inner,
            final(self).inner == *final(r),
            final(self).high_water_mark == old(self).high_water_mark,
            final(self).buffer == old(self).buffer,
            final(self).accepted == old(self).accepted,
    {
        &mut self.inner
    }
}

impl<Io, Codec, B: Buffer> FramedWriteImpl<Fuse<Io, Codec>, B> {
    /// Encodes `item` at the back of the write buffer.
    pub fn encode_item<Item>(&mut self, item: Item) -> (r: Result<(), Codec::Error>) where
        Codec: Encoder<Item, B>,
        ensures
            final(self).inner.io == old(self).inner.io,
            final(self).high_water_mark == old(self).high_water_mark,
            final(self).accepted == old(self).accepted,
            r is Ok ==> appended(old(self).buffer@, final(self).buffer@),
            old(self).inner.codec.encode_outcome(item, r),
            r is Ok ==> old(self).inner.codec.encodes(
                item,
                final(self).buffer@.skip(old(self).buffer@.len() as int),
            ),
    {
        self.inner.codec.encode(item, &mut self.buffer)
    }
}

impl<Io, Codec, B, Item> IterSink<Item> for FramedWriteImpl<Fuse<Io, Codec>, B> where
    Io: BlockingWrite,
    Codec: Encoder<Item, B>,
    B: Buffer,
{
    type Error = Codec::Error;

    /// While the buffer holds at least the high-water mark, the writer is handed the
    /// whole buffer and the bytes it takes leave the buffer's front. A buffer already
    /// under the mark is left as it is. A write that fails or takes nothing ends it
    /// with an error; otherwise it ends once the buffer is under the mark.
    open spec fn readies(&self, r: Result<(), Self::Error>, after: Self) -> bool {
        &&& after.inner.codec == self.inner.codec
        &&& after.high_water_mark == self.high_water_mark
        &&& handed_over(self.accepted@, self.buffer@, after.accepted@, after.buffer@)
        &&& self.buffer@.len() < self.high_water_mark ==> (r is Ok && after == *self)
        &&& r is Ok ==> after.buffer@.len() < after.high_water_mark
        &&& exists|io_last: Io|
            #[trigger] drains(
                self.inner.io,
                self.buffer@,
                self.high_water_mark as int,
                io_last,
                after.buffer@,
            ) && if r is Ok {
                after.inner.io == io_last
            } else {
                after.buffer@.len() >= self.high_water_mark && stalls(
                    io_last,
                    after.buffer@,
                    after.inner.io,
                    r,
                )
            }
    }

    /// The encoder's outcome is returned; on success its encoding of `item` follows the
    /// bytes already buffered.
    open spec fn sends(&self, item: Item, r: Result<(), Self::Error>, after: Self) -> bool {
        &&& after.inner.io == self.inner.io
        &&& after.high_water_mark == self.high_water_mark
        &&& after.accepted == self.accepted
        &&& self.inner.codec.encode_outcome(item, r)
        &&& r is Ok ==> appended(self.buffer@, after.buffer@)
        &&& r is Ok ==> self.inner.codec.encodes(
            item,
            after.buffer@.skip(self.buffer@.len() as int),
        )
    }

    /// While the buffer holds any byte, the writer is handed the whole buffer and the
    /// bytes it takes leave the buffer's front; a write that fails or takes nothing
    /// ends it with an error. Once the buffer is empty the writer is flushed, once, and
    /// the outcome is the flush's.
    open spec fn flushes(&self, r: Result<(), Self::Error>, after: Self) -> bool {
        &&& after.inner.codec == self.inner.codec
        &&& after.high_water_mark == self.high_water_mark
        &&& handed_over(self.accepted@, self.buffer@, after.accepted@, after.buffer@)
        &&& r is Ok ==> after.buffer@.len() == 0
        &&& exists|io_last: Io|
            #[trigger] drains(self.inner.io, self.buffer@, 1, io_last, after.buffer@) && if after.buffer@.len() == 0 {
                exists|flushed: Result<(), std::io::Error>|
                    #[trigger] io_last.flushed(flushed, after.inner.io) && flush_result(flushed, r)
            } else {
                stalls(io_last, after.buffer@, after.inner.io, r)
            }
    }

    /// Encodes `item` at the back of the write buffer.
    fn start_send(&mut self, item: Item) -> (r: Result<(), Self::Error>) {
        self.encode_item(item)
    }

    /// Writes the whole buffer out, front first, then flushes the writer.
    fn flush(&mut self) -> (r: Result<(), Self::Error>) {
        let ghost start = self.buffer@;
        let ghost start_accepted = self.accepted@;
        let ghost start_io = self.inner.io;
        let ghost mut written: int = 0;
        while !self.buffer.is_empty()
            invariant
                start == old(self).buffer@,
                start_accepted == old(self).accepted@,
                start_io == old(self).inner.io,
                self.inner.codec == old(self).inner.codec,
                self.high_water_mark == old(self).high_water_mark,
                0 <= written <= start.len(),
                self.buffer@ == start.skip(written),
                self.accepted@ == start_accepted + start.take(written),
                drains(start_io, start, 1, self.inner.io, self.buffer@),
            decreases self.buffer@.len(),
        {
            let ghost io_last = self.inner.io;
            let ghost buf_last = self.buffer@;
            let result = self.inner.io.write(self.buffer.as_slice());
            let num_write = match result {
                Ok(n) => n,
                Err(e) => {
                    let r = Err(e.into());
                    assert(write_failure(result, r));
                    assert(stalls(io_last, buf_last, self.inner.io, r));
                    return r;
                },
            };
            proof {
                lemma_take_more(start, written, num_write as int);
            }
            if let Err(e) = self.take_written(num_write) {
                let r = Err(e.into());
                assert(write_failure(result, r));
                assert(stalls(io_last, buf_last, self.inner.io, r));
                return r;
            }
            proof {
                lemma_drains_extend(start_io, start, 1, io_last, buf_last, num_write, self.inner.io);
                assert(self.accepted@ =~= start_accepted + start.take(written + num_write));
                written = written + num_write;
            }
        }
        let ghost io_last = self.inner.io;
        let flushed = self.inner.io.flush();
        assert(io_last.flushed(flushed, self.inner.io));
        let r = match flushed {
            Ok(()) => Ok(()),
            Err(e) => Err(e.into()),
        };
        assert(flush_result(flushed, r));
        r
    }

    /// Writes from the front of the buffer until it holds fewer bytes than the
    /// high-water mark.
    fn ready(&mut self) -> (r: Result<(), Self::Error>) {
        let ghost start = self.buffer@;
        let ghost start_accepted = self.accepted@;
        let ghost start_io = self.inner.io;
        let ghost mut written: int = 0;
        while self.over_high_water_mark()
            invariant
                start == old(self).buffer@,
                start_accepted == old(self).accepted@,
                start_io == old(self).inner.io,
                self.inner.codec == old(self).inner.codec,
                self.high_water_mark == old(self).high_water_mark,
                0 <= written <= start.len(),
                self.buffer@ == start.skip(written),
                self.accepted@ == start_accepted + start.take(written),
                start.len() < self.high_water_mark ==> *self == *old(self),
                drains(start_io, start, self.high_water_mark as int, self.inner.io, self.buffer@),
            decreases self.buffer@.len(),
        {
            let ghost io_last = self.inner.io;
            let ghost buf_last = self.buffer@;
            let result = self.inner.io.write(self.buffer.as_slice());
            let num_write = match result {
                Ok(n) => n,
                Err(e) => {
                    let r = Err(e.into());
                    assert(write_failure(result, r));
                    assert(stalls(io_last, buf_last, self.inner.io, r));
                    assert(handed_over(start_accepted, start, self.accepted@, self.buffer@));
                    return r;
                },
            };
            proof {
                lemma_take_more(start, written, num_write as int);
            }
            if let Err(e) = self.take_written(num_write) {
                let r = Err(e.into());
                assert(write_failure(result, r));
                assert(stalls(io_last, buf_last, self.inner.io, r));
                return r;
            }
            proof {
                lemma_drains_extend(
                    start_io,
                    start,
                    self.high_water_mark as int,
                    io_last,
                    buf_last,
                    num_write,
                    self.inner.io,
                );
                assert(self.accepted@ =~= start_accepted + start.take(written + num_write));
                written = written + num_write;
            }
        }
        Ok(())
    }
}

/// Taking `n` more bytes after the first `k` of `s` takes the first `k + n`.
proof fn lemma_take_more(s: Seq<u8>, k: int, n: int)
    requires
        0 <= k,
        0 <= n,
        k + n <= s.len(),
    ensures
        s.take(k) + s.skip(k).take(n) == s.take(k + n),
        s.skip(k).skip(n) == s.skip(k + n),
{
    assert(s.take(k) + s.skip(k).take(n) =~= s.take(k + n));
    assert(s.skip(k).skip(n) =~= s.skip(k + n));
}

} // verus!

verus! {

/// A sink of frames encoded into a writer.
///
/// Items are encoded into a write buffer; the buffer is written out when it reaches
/// the send high-water mark and when the sink is flushed.
pub struct FramedWrite<Io, Codec, Buf> {
    inner: FramedWriteImpl<Fuse<Io, Codec>, Buf>,
}

impl<Io, Codec, Buf> FramedWrite<Io, Codec, Buf> {
    /// The writer the frames go to.
    pub closed spec fn spec_io(&self) -> Io {
        self.inner.inner.io
    }

    /// The encoder that frames the items.
    pub closed spec fn spec_encoder(&self) -> Codec {
        self.inner.inner.codec
    }

    /// The encoded bytes not yet handed to the writer, front first.
    pub closed spec fn buffered(&self) -> Seq<u8> where Buf: Buffer {
        self.inner.buffer@
    }

    /// The send high-water mark, in bytes.
    pub closed spec fn spec_high_water_mark(&self) -> usize {
        self.inner.high_water_mark
    }

    /// Every byte reported as taken so far, in order: by the writes of `ready` and
    /// `flush`, and by the counts handed to `take_written`.
    pub closed spec fn accepted(&self) -> Seq<u8> {
        self.inner.accepted@
    }
}

impl<Io, Codec, Buf: Buffer> FramedWrite<Io, Codec, Buf> {
    /// Creates a new `FramedWrite` transport with the given `Encoder`.
    pub fn new(inner: Io, encoder: Codec) -> (r: Self)
        ensures
            r.spec_io() == inner,
            r.spec_encoder() == encoder,
            r.buffered() == Seq::<u8>::empty(),
            r.accepted() == Seq::<u8>::empty(),
            r.spec_high_water_mark() == DEFAULT_SEND_HIGH_WATER_MARK,
    {
        Self { inner: FramedWriteImpl::new(Fuse::new(inner, encoder)) }
    }

    /// High-water mark for writes, in bytes
    ///
    /// The send *high-water mark* prevents the `FramedWrite`
    /// from accepting additional messages to send when its
    /// buffer exceeds this length, in bytes. Attempts to enqueue
    /// additional messages will be deferred until progress is
    /// made on the underlying writer. This applies
    /// back-pressure on fast senders and prevents unbounded
    /// buffer growth.
    pub fn send_high_water_mark(&self) -> (hwm: usize)
        ensures
            hwm == self.spec_high_water_mark(),
    {
        self.inner.high_water_mark
    }

    /// Sets high-water mark for writes, in bytes
    ///
    /// The default high-water mark is 2^17 bytes. Applications
    /// which desire low latency may wish to reduce this value.
    /// There is little point to increasing this value beyond
    /// your socket's `SO_SNDBUF` size. On linux, this defaults
    /// to 212992 bytes but is user-adjustable.
    pub fn set_send_high_water_mark(&mut self, hwm: usize)
        ensures
            final(self).spec_high_water_mark() == hwm,
            final(self).spec_io() == old(self).spec_io(),
            final(self).spec_encoder() == old(self).spec_encoder(),
            final(self).buffered() == old(self).buffered(),
            final(self).accepted() == old(self).accepted(),
    {
        self.inner.high_water_mark = hwm;
    }

    /// Release the I/O and Encoder
    pub fn release(self) -> (r: (Io, Codec))
        ensures
            r == (self.spec_io(), self.spec_encoder()),
    {
        let fuse = self.inner.release();
        (fuse.io, fuse.codec)
    }

    /// Consumes the `FramedWrite`, returning its underlying I/O stream.
    ///
    /// Note that care should be taken to not tamper with the underlying stream
    /// of data coming in as it may corrupt the stream of frames otherwise
    /// being worked with.
    pub fn into_inner(self) -> (r: Io)
        ensures
            r == self.spec_io(),
    {
        self.release().0
    }

    /// Returns a reference to the underlying encoder.
    ///
    /// Note that care should be taken to not tamper with the underlying encoder
    /// as it may corrupt the stream of frames otherwise being worked with.
    pub fn encoder(&self) -> (r: &Codec)
        ensures
            *r == self.spec_encoder(),
    {
        &self.inner.inner.codec
    }

    /// Returns a mutable reference to the underlying encoder.
    ///
    /// Note that care should be taken to not tamper with the underlying encoder
    /// as it may corrupt the stream of frames otherwise being worked with.
    pub fn encoder_mut(&mut self) -> (r: &mut Codec)
        ensures
            *r == old(self).spec_encoder(),
            final(self).spec_encoder() == *final(r),
            final(self).spec_io() == old(self).spec_io(),
            final(self).buffered() == old(self).buffered(),
            final(self).accepted() == old(self).accepted(),
            final(self).spec_high_water_mark() == old(self).spec_high_water_mark(),
    {
        &mut self.inner.inner.codec
    }

    /// The encoded bytes waiting to be written, front first.
    pub fn write_buffer(&self) -> (bytes: &[u8])
        ensures
            bytes@ == self.buffered(),
    {
        self.inner.buffer.as_slice()
    }

    /// The writer together with the encoded bytes waiting to be written to it, so
    /// that a caller can hand the ones to the other.
    pub fn io_and_write_buffer(&mut self) -> (r: (&mut Io, &[u8]))
        ensures
            *r.0 == old(self).spec_io(),
            r.1@ == old(self).buffered(),
            final(self).spec_io() == *final(r.0),
            final(self).spec_encoder() == old(self).spec_encoder(),
            final(self).buffered() == old(self).buffered(),
            final(self).accepted() == old(self).accepted(),
            final(self).spec_high_water_mark() == old(self).spec_high_water_mark(),
    {
        (&mut self.inner.inner.io, self.inner.buffer.as_slice())
    }

    /// Whether the write buffer has reached the high-water mark, so that bytes must be
    /// written out before another item is accepted.
    pub fn over_high_water_mark(&self) -> (over: bool)
        ensures
            over == (self.buffered().len() >= self.spec_high_water_mark()),
    {
        self.inner.over_high_water_mark()
    }

    /// Accounts for a write that took `num_write` bytes from the front of the write
    /// buffer, as the caller reports it: those bytes leave the buffer and count as
    /// taken. A write that took nothing means the writer is at its end: the buffer is
    /// kept and an `UnexpectedEof` error is returned.
    pub fn take_written(&mut self, num_write: usize) -> (r: Result<(), std::io::Error>)
        requires
            num_write <= old(self).buffered().len(),
        ensures
            r is Ok <==> num_write > 0,
            final(self).accepted() == old(self).accepted() + old(self).buffered().take(
                num_write as int,
            ),
            final(self).buffered() == old(self).buffered().skip(num_write as int),
            final(self).spec_io() == old(self).spec_io(),
            final(self).spec_encoder() == old(self).spec_encoder(),
            final(self).spec_high_water_mark() == old(self).spec_high_water_mark(),
    {
        self.inner.take_written(num_write)
    }

    /// Encodes `item` at the back of the write buffer.
    pub fn encode_item<Item>(&mut self, item: Item) -> (r: Result<(), Codec::Error>) where
        Codec: Encoder<Item, Buf>,
        ensures
            final(self).spec_io() == old(self).spec_io(),
            final(self).spec_high_water_mark() == old(self).spec_high_water_mark(),
            final(self).accepted() == old(self).accepted(),
            r is Ok ==> appended(old(self).buffered(), final(self).buffered()),
            old(self).spec_encoder().encode_outcome(item, r),
            r is Ok ==> old(self).spec_encoder().encodes(
                item,
                final(self).buffered().skip(old(self).buffered().len() as int),
            ),
    {
        self.inner.encode_item(item)
    }
}

impl<Io, Codec, Buf> core::ops::Deref for FramedWrite<Io, Codec, Buf> {
    type Target = Io;

    fn deref(&self) -> (r: &Io)
        ensures
            *r == self.spec_io(),
    {
        self.inner.deref().deref()
    }
}

impl<Io, Codec, Buf: Buffer> core::ops::DerefMut for FramedWrite<Io, Codec, Buf> {
    fn deref_mut(&mut self) -> (r: &mut Io)
        ensures
            *r == old(self).spec_io(),
            final(self).spec_io() == *final(r),
            final(self).spec_encoder() == old(self).spec_encoder(),
            final(self).spec_high_water_mark() == old(self).spec_high_water_mark(),
            final(self).buffered() == old(self).buffered(),
            final(self).accepted() == old(self).accepted(),
    {
        self.inner.deref_mut().deref_mut()
    }
}

impl<Io, Codec, Buf, Item> IterSink<Item> for FramedWrite<Io, Codec, Buf> where
    Io: BlockingWrite,
    Codec: Encoder<Item, Buf>,
    Buf: Buffer,
{
    type Error = Codec::Error;

    /// Bytes go to the writer from the front of the write buffer until it holds fewer
    /// bytes than the high-water mark; a buffer already under the mark is left as it is.
    open spec fn readies(&self, r: Result<(), Self::Error>, after: Self) -> bool {
        &&& after.spec_encoder() == self.spec_encoder()
        &&& after.spec_high_water_mark() == self.spec_high_water_mark()
        &&& handed_over(self.accepted(), self.buffered(), after.accepted(), after.buffered())
        &&& self.buffered().len() < self.spec_high_water_mark() ==> (r is Ok && after == *self)
        &&& r is Ok ==> after.buffered().len() < after.spec_high_water_mark()
        &&& exists|io_last: Io|
            #[trigger] drains(
                self.spec_io(),
                self.buffered(),
                self.spec_high_water_mark() as int,
                io_last,
                after.buffered(),
            ) && if r is Ok {
                after.spec_io() == io_last
            } else {
                after.buffered().len() >= self.spec_high_water_mark() && stalls(
                    io_last,
                    after.buffered(),
                    after.spec_io(),
                    r,
                )
            }
    }

    /// The encoder's outcome is returned; on success its encoding of `item` follows the
    /// bytes already buffered.
    open spec fn sends(&self, item: Item, r: Result<(), Self::Error>, after: Self) -> bool {
        &&& after.spec_io() == self.spec_io()
        &&& after.spec_high_water_mark() == self.spec_high_water_mark()
        &&& after.accepted() == self.accepted()
        &&& self.spec_encoder().encode_outcome(item, r)
        &&& r is Ok ==> appended(self.buffered(), after.buffered())
        &&& r is Ok ==> self.spec_encoder().encodes(
            item,
            after.buffered().skip(self.buffered().len() as int),
        )
    }

    /// Bytes go to the writer from the front of the write buffer; on success none is
    /// left.
    open spec fn flushes(&self, r: Result<(), Self::Error>, after: Self) -> bool {
        &&& after.spec_encoder() == self.spec_encoder()
        &&& after.spec_high_water_mark() == self.spec_high_water_mark()
        &&& handed_over(self.accepted(), self.buffered(), after.accepted(), after.buffered())
        &&& r is Ok ==> after.buffered().len() == 0
        &&& exists|io_last: Io|
            #[trigger] drains(self.spec_io(), self.buffered(), 1, io_last, after.buffered())
                && if after.buffered().len() == 0 {
                exists|flushed: Result<(), std::io::Error>|
                    #[trigger] io_last.flushed(flushed, after.spec_io()) && flush_result(
                        flushed,
                        r,
                    )
            } else {
                stalls(io_last, after.buffered(), after.spec_io(), r)
            }
    }

    /// Encodes `item` at the back of the write buffer.
    fn start_send(&mut self, item: Item) -> (r: Result<(), Self::Error>) {
        self.inner.start_send(item)
    }

    /// Writes from the front of the buffer until it holds fewer bytes than the
    /// high-water mark.
    fn ready(&mut self) -> (r: Result<(), Self::Error>) {
        let ghost before = self.inner;
        let r = self.inner.ready();
        assert(<FramedWriteImpl<Fuse<Io, Codec>, Buf> as IterSink<Item>>::readies(&before, r, self.inner));
        proof {
            let io_last = choose|io_last: Io|
                #[trigger] drains(
                    before.inner.io,
                    before.buffer@,
                    before.high_water_mark as int,
                    io_last,
                    self.inner.buffer@,
                ) && if r is Ok {
                    self.inner.inner.io == io_last
                } else {
                    self.inner.buffer@.len() >= before.high_water_mark && stalls(
                        io_last,
                        self.inner.buffer@,
                        self.inner.inner.io,
                        r,
                    )
                };
            assert(drains(
                old(self).spec_io(),
                old(self).buffered(),
                old(self).spec_high_water_mark() as int,
                io_last,
                self.buffered(),
            ));
        }
        r
    }

    /// Writes the whole buffer out, front first, then flushes the writer.
    fn flush(&mut self) -> (r: Result<(), Self::Error>) {
        let ghost before = self.inner;
        let r = self.inner.flush();
        assert(<FramedWriteImpl<Fuse<Io, Codec>, Buf> as IterSink<Item>>::flushes(&before, r, self.inner));
        proof {
            let io_last = choose|io_last: Io|
                #[trigger] drains(before.inner.io, before.buffer@, 1, io_last, self.inner.buffer@)
                    && if self.inner.buffer@.len() == 0 {
                    exists|flushed: Result<(), std::io::Error>|
                        #[trigger] io_last.flushed(flushed, self.inner.inner.io) && flush_result(
                            flushed,
                            r,
                        )
                } else {
                    stalls(io_last, self.inner.buffer@, self.inner.inner.io, r)
                };
            assert(drains(old(self).spec_io(), old(self).buffered(), 1, io_last, self.buffered()));
            if self.inner.buffer@.len() == 0 {
                let flushed = choose|flushed: Result<(), std::io::Error>|
                    #[trigger] io_last.flushed(flushed, self.inner.inner.io) && flush_result(
                        flushed,
                        r,
                    );
                assert(io_last.flushed(flushed, self.spec_io()));
            }
        }
        r
    }
}

} // verus!

verus! {

/// A send that goes through delivers, in order: when `ready` hands some buffered bytes
/// over (from `buffered0` to `buffered1`), `start_send` then appends the item's
/// encoding (giving `buffered2`), and `flush` succeeds (its buffer ends empty), the
/// writer has taken, after everything it had taken before, exactly the bytes that
/// were buffered before the send and then the item's encoding.
pub proof fn law_send_delivers(
    accepted0: Seq<u8>,
    buffered0: Seq<u8>,
    accepted1: Seq<u8>,
    buffered1: Seq<u8>,
    buffered2: Seq<u8>,
    accepted3: Seq<u8>,
)
    requires
        handed_over(accepted0, buffered0, accepted1, buffered1),
        appended(buffered1, buffered2),
        handed_over(accepted1, buffered2, accepted3, Seq::<u8>::empty()),
    ensures
        accepted3 == accepted0 + buffered0 + buffered2.skip(buffered1.len() as int),
{
    crate::buffer::law_hand_over_keeps_bytes(accepted0, buffered0, accepted1, buffered1);
    crate::buffer::law_hand_over_keeps_bytes(accepted1, buffered2, accepted3, Seq::<u8>::empty());
    let encoded = buffered2.skip(buffered1.len() as int);
    assert(buffered2 =~= buffered1 + encoded);
    assert(accepted3 =~= accepted3 + Seq::<u8>::empty());
    assert(accepted1 + (buffered1 + encoded) =~= (accepted1 + buffered1) + encoded);
}

/// What a vector writer receives: when `send(item)` on a framed sink writing into a
/// vector succeeds, the vector holds its old bytes, then every byte that was buffered
/// before the send, then the item's encoding, and nothing stays buffered.
pub proof fn law_vec_send_delivers<Codec, Buf, Item>(
    before: FramedWrite<Vec<u8>, Codec, Buf>,
    item: Item,
    r: Result<(), Codec::Error>,
    after: FramedWrite<Vec<u8>, Codec, Buf>,
) where Codec: Encoder<Item, Buf>, Buf: Buffer
    requires
        sends_all(before, seq![Ok::<Item, Codec::Error>(item)], r, after),
        r is Ok,
    ensures
        after.buffered().len() == 0,
        after.spec_io()@ == before.spec_io()@ + before.buffered() + after.spec_io()@.skip(
            before.spec_io()@.len() + before.buffered().len() as int,
        ),
        before.spec_encoder().encodes(
            item,
            after.spec_io()@.skip(before.spec_io()@.len() + before.buffered().len() as int),
        ),
{
    let items = seq![Ok::<Item, Codec::Error>(item)];
    assert(items[0]->Ok_0 == item);
    assert(items.skip(1) =~= Seq::<Result<Item, Codec::Error>>::empty());
    let (r1, s1) = choose|r1: Result<(), Codec::Error>, s1: FramedWrite<Vec<u8>, Codec, Buf>|
        #[trigger] <FramedWrite<Vec<u8>, Codec, Buf> as IterSink<Item>>::readies(&before, r1, s1)
            && if r1 is Err {
            r == r1 && after == s1
        } else {
            exists|r2: Result<(), Codec::Error>, s2: FramedWrite<Vec<u8>, Codec, Buf>|
                #[trigger] <FramedWrite<Vec<u8>, Codec, Buf> as IterSink<Item>>::sends(
                    &s1,
                    item,
                    r2,
                    s2,
                ) && if r2 is Err {
                    r == r2 && after == s2
                } else {
                    sends_all(s2, items.skip(1), r, after)
                }
        };
    let io1 = choose|io_last: Vec<u8>|
        #[trigger] drains(
            before.spec_io(),
            before.buffered(),
            before.spec_high_water_mark() as int,
            io_last,
            s1.buffered(),
        ) && if r1 is Ok {
            s1.spec_io() == io_last
        } else {
            s1.buffered().len() >= before.spec_high_water_mark() && stalls(
                io_last,
                s1.buffered(),
                s1.spec_io(),
                r1,
            )
        };
    law_vec_drains(
        before.spec_io(),
        before.buffered(),
        before.spec_high_water_mark() as int,
        io1,
        s1.buffered(),
    );
    let (r2, s2) = choose|r2: Result<(), Codec::Error>, s2: FramedWrite<Vec<u8>, Codec, Buf>|
        #[trigger] <FramedWrite<Vec<u8>, Codec, Buf> as IterSink<Item>>::sends(&s1, item, r2, s2)
            && if r2 is Err {
            r == r2 && after == s2
        } else {
            sends_all(s2, items.skip(1), r, after)
        };
    let io2 = choose|io_last: Vec<u8>|
        #[trigger] drains(s2.spec_io(), s2.buffered(), 1, io_last, after.buffered()) && if after.buffered().len() == 0 {
            exists|flushed: Result<(), std::io::Error>|
                #[trigger] io_last.flushed(flushed, after.spec_io()) && flush_result(flushed, r)
        } else {
            stalls(io_last, after.buffered(), after.spec_io(), r)
        };
    law_vec_drains(s2.spec_io(), s2.buffered(), 1, io2, after.buffered());
    let flushed = choose|flushed: Result<(), std::io::Error>|
        #[trigger] io2.flushed(flushed, after.spec_io()) && flush_result(flushed, r);
    assert(<Vec<u8> as BlockingWrite>::flushed(&io2, flushed, after.spec_io()));
    let old_len = before.spec_io()@.len() + before.buffered().len() as int;
    let bytes = s2.buffered().skip(s1.buffered().len() as int);
    assert(s2.buffered() =~= s1.buffered() + bytes);
    assert(after.buffered() =~= Seq::<u8>::empty());
    assert(after.spec_io()@ =~= before.spec_io()@ + before.buffered() + bytes);
    assert(after.spec_io()@.skip(old_len) =~= bytes);
}

/// A vector writer takes everything: `flush` on a framed sink writing into a vector
/// succeeds, and the vector then holds its old bytes followed by every byte that was
/// buffered.
pub proof fn law_vec_flush_delivers<Codec, Buf, Item>(
    before: FramedWrite<Vec<u8>, Codec, Buf>,
    r: Result<(), Codec::Error>,
    after: FramedWrite<Vec<u8>, Codec, Buf>,
) where Codec: Encoder<Item, Buf>, Buf: Buffer
    requires
        <FramedWrite<Vec<u8>, Codec, Buf> as IterSink<Item>>::flushes(&before, r, after),
    ensures
        r is Ok,
        after.buffered().len() == 0,
        after.spec_io()@ == before.spec_io()@ + before.buffered(),
{
    let io1 = choose|io_last: Vec<u8>|
        #[trigger] drains(before.spec_io(), before.buffered(), 1, io_last, after.buffered()) && if after.buffered().len() == 0 {
            exists|flushed: Result<(), std::io::Error>|
                #[trigger] io_last.flushed(flushed, after.spec_io()) && flush_result(flushed, r)
        } else {
            stalls(io_last, after.buffered(), after.spec_io(), r)
        };
    law_vec_drains(before.spec_io(), before.buffered(), 1, io1, after.buffered());
    if after.buffered().len() > 0 {
        let wrote = choose|wrote: Result<usize, std::io::Error>|
            #[trigger] io1.writes(after.buffered(), wrote, after.spec_io()) && write_failure(
                wrote,
                r,
            );
        assert(<Vec<u8> as BlockingWrite>::writes(&io1, after.buffered(), wrote, after.spec_io()));
        assert(false);
    }
    let flushed = choose|flushed: Result<(), std::io::Error>|
        #[trigger] io1.flushed(flushed, after.spec_io()) && flush_result(flushed, r);
    assert(<Vec<u8> as BlockingWrite>::flushed(&io1, flushed, after.spec_io()));
    assert(after.buffered() =~= Seq::<u8>::empty());
    assert(after.spec_io()@ =~= before.spec_io()@ + before.buffered());
}

/// A flush fails only through a write: when the writer's own flush always succeeds and
/// changes nothing, `flush` on a framed sink succeeds exactly when every buffered byte
/// was written, and it then leaves the writer as the last write left it.
pub proof fn law_flush_fails_only_by_writes<Io, Codec, Buf, Item>(
    before: FramedWrite<Io, Codec, Buf>,
    r: Result<(), Codec::Error>,
    after: FramedWrite<Io, Codec, Buf>,
) where Io: BlockingWrite, Codec: Encoder<Item, Buf>, Buf: Buffer
    requires
        forall|w: Io, fr: Result<(), std::io::Error>, w2: Io|
            #[trigger] w.flushed(fr, w2) ==> fr is Ok && w2 == w,
        <FramedWrite<Io, Codec, Buf> as IterSink<Item>>::flushes(&before, r, after),
    ensures
        r is Ok <==> after.buffered().len() == 0,
        r is Ok ==> drains(before.spec_io(), before.buffered(), 1, after.spec_io(), after.buffered()),
{
    let io1 = choose|io_last: Io|
        #[trigger] drains(before.spec_io(), before.buffered(), 1, io_last, after.buffered()) && if after.buffered().len() == 0 {
            exists|flushed: Result<(), std::io::Error>|
                #[trigger] io_last.flushed(flushed, after.spec_io()) && flush_result(flushed, r)
        } else {
            stalls(io_last, after.buffered(), after.spec_io(), r)
        };
    if after.buffered().len() == 0 {
        let flushed = choose|flushed: Result<(), std::io::Error>|
            #[trigger] io1.flushed(flushed, after.spec_io()) && flush_result(flushed, r);
        assert(flushed is Ok && after.spec_io() == io1);
    } else {
        let wrote = choose|wrote: Result<usize, std::io::Error>|
            #[trigger] io1.writes(after.buffered(), wrote, after.spec_io()) && write_failure(
                wrote,
                r,
            );
    }
}

/// Flushing a framed sink over a cursor on a fixed slice succeeds exactly when every
/// buffered byte was written into the slice.
pub proof fn law_slice_cursor_flush<'a, Codec, Buf, Item>(
    before: FramedWrite<std::io::Cursor<&'a mut [u8]>, Codec, Buf>,
    r: Result<(), Codec::Error>,
    after: FramedWrite<std::io::Cursor<&'a mut [u8]>, Codec, Buf>,
) where Codec: Encoder<Item, Buf>, Buf: Buffer
    requires
        <FramedWrite<std::io::Cursor<&'a mut [u8]>, Codec, Buf> as IterSink<Item>>::flushes(
            &before,
            r,
            after,
        ),
    ensures
        r is Ok <==> after.buffered().len() == 0,
{
    assert forall|w: std::io::Cursor<&'a mut [u8]>, fr: Result<(), std::io::Error>, w2: std::io::Cursor<&'a mut [u8]>|
        #[trigger] w.flushed(fr, w2) implies fr is Ok && w2 == w by {
        assert(<std::io::Cursor<&'a mut [u8]> as BlockingWrite>::flushed(&w, fr, w2));
    }
    law_flush_fails_only_by_writes::<std::io::Cursor<&'a mut [u8]>, Codec, Buf, Item>(before, r, after);
}

/// Flushing a framed sink over a cursor on a vector succeeds exactly when every
/// buffered byte was written into the vector.
pub proof fn law_vec_cursor_flush<Codec, Buf, Item>(
    before: FramedWrite<std::io::Cursor<Vec<u8>>, Codec, Buf>,
    r: Result<(), Codec::Error>,
    after: FramedWrite<std::io::Cursor<Vec<u8>>, Codec, Buf>,
) where Codec: Encoder<Item, Buf>, Buf: Buffer
    requires
        <FramedWrite<std::io::Cursor<Vec<u8>>, Codec, Buf> as IterSink<Item>>::flushes(
            &before,
            r,
            after,
        ),
    ensures
        r is Ok <==> after.buffered().len() == 0,
{
    assert forall|w: std::io::Cursor<Vec<u8>>, fr: Result<(), std::io::Error>, w2: std::io::Cursor<Vec<u8>>|
        #[trigger] w.flushed(fr, w2) implies fr is Ok && w2 == w by {
        assert(<std::io::Cursor<Vec<u8>> as BlockingWrite>::flushed(&w, fr, w2));
    }
    law_flush_fails_only_by_writes::<std::io::Cursor<Vec<u8>>, Codec, Buf, Item>(before, r, after);
}

} // verus!
