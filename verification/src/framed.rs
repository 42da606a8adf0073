use vstd::prelude::*;

use core::ops::{Deref, DerefMut};

use crate::buffer::{appended, handed_over};
use crate::framed_read::{
    absorb, absorbs, decode_buffered, decodes_buffered, FrameStep, FramedReadImpl,
};
use crate::framed_write::FramedWriteImpl;
use crate::fuse::Fuse;
use crate::sink::IterSink;
use crate::write::{drains, flush_result, stalls, BlockingWrite};
use crate::{Buffer, Decoder, Encoder};

verus! {

impl<Io, Codec, B, Item> IterSink<Item> for FramedReadImpl<FramedWriteImpl<Fuse<Io, Codec>, B>, B> where
    Io: BlockingWrite,
    Codec: Encoder<Item, B>,
    B: Buffer,
{
    type Error = Codec::Error;

    /// As the write half readies; the read buffer stays.
    open spec fn readies(&self, r: Result<(), Self::Error>, after: Self) -> bool {
        &&& after.buffer == self.buffer
        &&& self.inner.readies(r, after.inner)
    }

    /// As the write half sends; the read buffer stays.
    open spec fn sends(&self, item: Item, r: Result<(), Self::Error>, after: Self) -> bool {
        &&& after.buffer == self.buffer
        &&& self.inner.sends(item, r, after.inner)
    }

    /// As the write half flushes; the read buffer stays.
    open spec fn flushes(&self, r: Result<(), Self::Error>, after: Self) -> bool {
        &&& after.buffer == self.buffer
        &&& self.inner.flushes(r, after.inner)
    }

    fn start_send(&mut self, item: Item) -> (r: Result<(), Self::Error>) {
        self.inner.start_send(item)
    }

    fn ready(&mut self) -> (r: Result<(), Self::Error>) {
        self.inner.ready()
    }

    fn flush(&mut self) -> (r: Result<(), Self::Error>) {
        self.inner.flush()
    }
}

/// A unified stream and sink interface to an underlying I/O object, using the
/// `Encoder` and `Decoder` traits to encode and decode frames.
///
/// Frames read are decoded from a read buffer; items sent are encoded into a write
/// buffer, which is written out when it reaches the send high-water mark and when
/// the sink is flushed.
pub struct Framed<Io, Codec, Buf> {
    inner: FramedReadImpl<FramedWriteImpl<Fuse<Io, Codec>, Buf>, Buf>,
}

impl<Io, Codec, Buf> Framed<Io, Codec, Buf> {
    /// The I/O object the frames come from and go to.
    pub closed spec fn spec_io(&self) -> Io {
        self.inner.inner.inner.io
    }

    /// The codec that frames the items.
    pub closed spec fn spec_codec(&self) -> Codec {
        self.inner.inner.inner.codec
    }

    /// The read buffer.
    pub closed spec fn spec_read_buffer(&self) -> Buf {
        self.inner.buffer
    }

    /// The encoded bytes not yet handed to the writer, front first.
    pub closed spec fn buffered(&self) -> Seq<u8> where Buf: Buffer {
        self.inner.inner.buffer@
    }

    /// The send high-water mark, in bytes.
    pub closed spec fn spec_high_water_mark(&self) -> usize {
        self.inner.inner.high_water_mark
    }

    /// Every byte reported as taken so far, in order: by the writes of `ready` and
    /// `flush`, and by the counts handed to `take_written`.
    pub closed spec fn accepted(&self) -> Seq<u8> {
        self.inner.inner.accepted@
    }
}

impl<Io, Codec, Buf: Buffer> Framed<Io, Codec, Buf> {
    /// Creates a new `Framed` transport with the given codec.
    /// A codec is a type which implements `Decoder` and `Encoder`.
    pub fn new(inner: Io, codec: Codec) -> (r: Self)
        ensures
            r.spec_io() == inner,
            r.spec_codec() == codec,
            r.spec_read_buffer()@ == Seq::<u8>::empty(),
            r.buffered() == Seq::<u8>::empty(),
            r.accepted() == Seq::<u8>::empty(),
            r.spec_high_water_mark() == crate::framed_write::DEFAULT_SEND_HIGH_WATER_MARK,
    {
        Self { inner: FramedReadImpl::new(FramedWriteImpl::new(Fuse::new(inner, codec))) }
    }

    /// Release the I/O and Codec
    pub fn release(self) -> (r: (Io, Codec))
        ensures
            r == (self.spec_io(), self.spec_codec()),
    {
        let fuse = self.inner.release().release();
        (fuse.io, fuse.codec)
    }

    /// Consumes the `Framed`, returning its underlying I/O stream.
    ///
    /// Note that care should be taken to not tamper with the underlying stream
    /// of data coming in as it may corrupt the stream of frames otherwise
    /// being worked with.
    pub fn into_inner(self) -> (r: Io)
        ensures
            r == self.spec_io(),
    {
        self.release().0
    }

    /// Returns a reference to the underlying codec wrapped by `Framed`.
    ///
    /// Note that care should be taken to not tamper with the underlying codec
    /// as it may corrupt the stream of frames otherwise being worked with.
    pub fn codec(&self) -> (r: &Codec)
        ensures
            *r == self.spec_codec(),
    {
        &self.inner.inner.inner.codec
    }

    /// Returns a mutable reference to the underlying codec wrapped by `Framed`.
    ///
    /// Note that care should be taken to not tamper with the underlying codec
    /// as it may corrupt the stream of frames otherwise being worked with.
    pub fn codec_mut(&mut self) -> (r: &mut Codec)
        ensures
            *r == old(self).spec_codec(),
            final(self).spec_codec() == *final(r),
            final(self).spec_io() == old(self).spec_io(),
            final(self).spec_read_buffer() == old(self).spec_read_buffer(),
            final(self).buffered() == old(self).buffered(),
            final(self).accepted() == old(self).accepted(),
            final(self).spec_high_water_mark() == old(self).spec_high_water_mark(),
    {
        &mut self.inner.inner.inner.codec
    }

    /// Returns a reference to the read buffer.
    pub fn read_buffer(&self) -> (r: &Buf)
        ensures
            *r == self.spec_read_buffer(),
    {
        self.inner.buffer()
    }

    /// Attempts to decode a frame from the bytes already buffered, as the stream
    /// does first when the next frame is asked for.
    pub fn decode_buffered(&mut self) -> (step: FrameStep<Codec::Item, Codec::Error>) where
        Codec: Decoder<Buf>,
        ensures
            final(self).spec_io() == old(self).spec_io(),
            final(self).buffered() == old(self).buffered(),
            final(self).accepted() == old(self).accepted(),
            final(self).spec_high_water_mark() == old(self).spec_high_water_mark(),
            decodes_buffered::<Buf, Codec>(
                old(self).spec_codec(),
                old(self).spec_read_buffer()@,
                step,
                final(self).spec_read_buffer()@,
                final(self).spec_codec(),
            ),
    {
        decode_buffered(&mut self.inner.inner.inner.codec, &mut self.inner.buffer)
    }

    /// Takes `chunk`, the bytes of one read from the I/O object, at the back of the
    /// read buffer and attempts to decode a frame, as an asynchronous stream does. An
    /// empty chunk means the input has ended: the decoder gets its last attempt through
    /// `decode_eof`, and bytes that no frame took are an `UnexpectedEof` error.
    pub fn absorb(&mut self, chunk: &[u8]) -> (step: FrameStep<Codec::Item, Codec::Error>) where
        Codec: Decoder<Buf>,
        ensures
            final(self).spec_io() == old(self).spec_io(),
            final(self).buffered() == old(self).buffered(),
            final(self).accepted() == old(self).accepted(),
            final(self).spec_high_water_mark() == old(self).spec_high_water_mark(),
            absorbs::<Buf, Codec>(
                old(self).spec_codec(),
                old(self).spec_read_buffer()@,
                chunk@,
                step,
                final(self).spec_read_buffer()@,
                final(self).spec_codec(),
                true,
            ),
    {
        absorb(&mut self.inner.inner.inner.codec, &mut self.inner.buffer, chunk, true)
    }

    /// Takes `chunk`, the bytes of one read from the I/O object, at the back of the
    /// read buffer and attempts to decode a frame, as a blocking iterator does. An
    /// empty chunk means the input has ended: the decoder gets its last attempt through
    /// `decode_eof`, and when it finds no frame the stream ends, whatever bytes stay
    /// buffered.
    pub fn absorb_blocking(&mut self, chunk: &[u8]) -> (step: FrameStep<
        Codec::Item,
        Codec::Error,
    >) where Codec: Decoder<Buf>,
        ensures
            final(self).spec_io() == old(self).spec_io(),
            final(self).buffered() == old(self).buffered(),
            final(self).accepted() == old(self).accepted(),
            final(self).spec_high_water_mark() == old(self).spec_high_water_mark(),
            absorbs::<Buf, Codec>(
                old(self).spec_codec(),
                old(self).spec_read_buffer()@,
                chunk@,
                step,
                final(self).spec_read_buffer()@,
                final(self).spec_codec(),
                false,
            ),
    {
        absorb(&mut self.inner.inner.inner.codec, &mut self.inner.buffer, chunk, false)
    }

    /// The encoded bytes waiting to be written, front first.
    pub fn write_buffer(&self) -> (bytes: &[u8])
        ensures
            bytes@ == self.buffered(),
    {
        self.inner.inner.buffer.as_slice()
    }

    /// The writer together with the encoded bytes waiting to be written to it, so
    /// that a caller can hand the ones to the other.
    pub fn io_and_write_buffer(&mut self) -> (r: (&mut Io, &[u8]))
        ensures
            *r.0 == old(self).spec_io(),
            r.1@ == old(self).buffered(),
            final(self).spec_io() == *final(r.0),
            final(self).spec_codec() == old(self).spec_codec(),
            final(self).spec_read_buffer() == old(self).spec_read_buffer(),
            final(self).buffered() == old(self).buffered(),
            final(self).accepted() == old(self).accepted(),
            final(self).spec_high_water_mark() == old(self).spec_high_water_mark(),
    {
        (&mut self.inner.inner.inner.io, self.inner.inner.buffer.as_slice())
    }

    /// Whether the write buffer has reached the high-water mark, so that bytes must be
    /// written out before another item is accepted.
    pub fn over_high_water_mark(&self) -> (over: bool)
        ensures
            over == (self.buffered().len() >= self.spec_high_water_mark()),
    {
        self.inner.inner.over_high_water_mark()
    }

    /// Accounts for a write that took `num_write` bytes from the front of the write
    /// buffer, as the caller reports it: those bytes leave the buffer and count as
    /// taken. A write that took nothing means the writer is at its end: the buffer is
    /// kept and an `UnexpectedEof` error is returned.
    pub fn take_written(&mut self, num_write: usize) -> (r: Result<(), std::io::Error>)
        requires
            num_write <= old(self).buffered().len(),
        ensures
            r is Ok <==> num_write > 0,
            final(self).accepted() == old(self).accepted() + old(self).buffered().take(
                num_write as int,
            ),
            final(self).buffered() == old(self).buffered().skip(num_write as int),
            final(self).spec_io() == old(self).spec_io(),
            final(self).spec_codec() == old(self).spec_codec(),
            final(self).spec_read_buffer() == old(self).spec_read_buffer(),
            final(self).spec_high_water_mark() == old(self).spec_high_water_mark(),
    {
        self.inner.inner.take_written(num_write)
    }

    /// Encodes `item` at the back of the write buffer.
    pub fn encode_item<Item>(&mut self, item: Item) -> (r: Result<(), Codec::Error>) where
        Codec: Encoder<Item, Buf>,
        ensures
            final(self).spec_io() == old(self).spec_io(),
            final(self).spec_read_buffer() == old(self).spec_read_buffer(),
            final(self).spec_high_water_mark() == old(self).spec_high_water_mark(),
            final(self).accepted() == old(self).accepted(),
            r is Ok ==> appended(old(self).buffered(), final(self).buffered()),
            old(self).spec_codec().encode_outcome(item, r),
            r is Ok ==> old(self).spec_codec().encodes(
                item,
                final(self).buffered().skip(old(self).buffered().len() as int),
            ),
    {
        self.inner.inner.encode_item(item)
    }
}

impl<Io, Codec, Buf> core::ops::Deref for Framed<Io, Codec, Buf> {
    type Target = Io;

    fn deref(&self) -> (r: &Io)
        ensures
            *r == self.spec_io(),
    {
        self.inner.deref().deref().deref()
    }
}

impl<Io, Codec, Buf: Buffer> core::ops::DerefMut for Framed<Io, Codec, Buf> {
    fn deref_mut(&mut self) -> (r: &mut Io)
        ensures
            *r == old(self).spec_io(),
            final(self).spec_io() == *final(r),
            final(self).spec_codec() == old(self).spec_codec(),
            final(self).spec_read_buffer() == old(self).spec_read_buffer(),
            final(self).buffered() == old(self).buffered(),
            final(self).accepted() == old(self).accepted(),
            final(self).spec_high_water_mark() == old(self).spec_high_water_mark(),
    {
        self.inner.deref_mut().deref_mut().deref_mut()
    }
}

impl<Io, Codec, Buf, Item> IterSink<Item> for Framed<Io, Codec, Buf> where
    Io: BlockingWrite,
    Codec: Encoder<Item, Buf>,
    Buf: Buffer,
{
    type Error = Codec::Error;

    /// Bytes go to the writer from the front of the write buffer until it holds fewer
    /// bytes than the high-water mark; a buffer already under the mark is left as it
    /// is. The read buffer stays.
    open spec fn readies(&self, r: Result<(), Self::Error>, after: Self) -> bool {
        &&& after.spec_codec() == self.spec_codec()
        &&& after.spec_read_buffer() == self.spec_read_buffer()
        &&& after.spec_high_water_mark() == self.spec_high_water_mark()
        &&& handed_over(self.accepted(), self.buffered(), after.accepted(), after.buffered())
        &&& self.buffered().len() < self.spec_high_water_mark() ==> (r is Ok && after == *self)
        &&& r is Ok ==> after.buffered().len() < after.spec_high_water_mark()
        &&& exists|io_last: Io|
            #[trigger] drains(
                self.spec_io(),
                self.buffered(),
                self.spec_high_water_mark() as int,
                io_last,
                after.buffered(),
            ) && if r is Ok {
                after.spec_io() == io_last
            } else {
                after.buffered().len() >= self.spec_high_water_mark() && stalls(
                    io_last,
                    after.buffered(),
                    after.spec_io(),
                    r,
                )
            }
    }

    /// The encoder's outcome is returned; on success its encoding of `item` follows the
    /// bytes already in the write buffer. The read buffer stays.
    open spec fn sends(&self, item: Item, r: Result<(), Self::Error>, after: Self) -> bool {
        &&& after.spec_io() == self.spec_io()
        &&& after.spec_read_buffer() == self.spec_read_buffer()
        &&& after.spec_high_water_mark() == self.spec_high_water_mark()
        &&& after.accepted() == self.accepted()
        &&& self.spec_codec().encode_outcome(item, r)
        &&& r is Ok ==> appended(self.buffered(), after.buffered())
        &&& r is Ok ==> self.spec_codec().encodes(
            item,
            after.buffered().skip(self.buffered().len() as int),
        )
    }

    /// Bytes go to the writer from the front of the write buffer; on success none is
    /// left. The read buffer stays.
    open spec fn flushes(&self, r: Result<(), Self::Error>, after: Self) -> bool {
        &&& after.spec_codec() == self.spec_codec()
        &&& after.spec_read_buffer() == self.spec_read_buffer()
        &&& after.spec_high_water_mark() == self.spec_high_water_mark()
        &&& handed_over(self.accepted(), self.buffered(), after.accepted(), after.buffered())
        &&& r is Ok ==> after.buffered().len() == 0
        &&& exists|io_last: Io|
            #[trigger] drains(self.spec_io(), self.buffered(), 1, io_last, after.buffered())
                && if after.buffered().len() == 0 {
                exists|flushed: Result<(), std::io::Error>|
                    #[trigger] io_last.flushed(flushed, after.spec_io()) && flush_result(
                        flushed,
                        r,
                    )
            } else {
                stalls(io_last, after.buffered(), after.spec_io(), r)
            }
    }

    /// Encodes `item` at the back of the write buffer.
    fn start_send(&mut self, item: Item) -> (r: Result<(), Self::Error>) {
        self.inner.start_send(item)
    }

    /// Writes from the front of the write buffer until it holds fewer bytes than the
    /// high-water mark.
    fn ready(&mut self) -> (r: Result<(), Self::Error>) {
        let ghost before = self.inner.inner;
        let r = self.inner.ready();
        assert(<FramedWriteImpl<Fuse<Io, Codec>, Buf> as IterSink<Item>>::readies(
            &before,
            r,
            self.inner.inner,
        ));
        proof {
            let io_last = choose|io_last: Io|
                #[trigger] drains(
                    before.inner.io,
                    before.buffer@,
                    before.high_water_mark as int,
                    io_last,
                    self.inner.inner.buffer@,
                ) && if r is Ok {
                    self.inner.inner.inner.io == io_last
                } else {
                    self.inner.inner.buffer@.len() >= before.high_water_mark && stalls(
                        io_last,
                        self.inner.inner.buffer@,
                        self.inner.inner.inner.io,
                        r,
                    )
                };
            assert(drains(
                old(self).spec_io(),
                old(self).buffered(),
                old(self).spec_high_water_mark() as int,
                io_last,
                self.buffered(),
            ));
        }
        r
    }

    /// Writes the whole write buffer out, front first, then flushes the writer.
    fn flush(&mut self) -> (r: Result<(), Self::Error>) {
        let ghost before = self.inner.inner;
        let r = self.inner.flush();
        assert(<FramedWriteImpl<Fuse<Io, Codec>, Buf> as IterSink<Item>>::flushes(
            &before,
            r,
            self.inner.inner,
        ));
        proof {
            let io_last = choose|io_last: Io|
                #[trigger] drains(before.inner.io, before.buffer@, 1, io_last, self.inner.inner.buffer@)
                    && if self.inner.inner.buffer@.len() == 0 {
                    exists|flushed: Result<(), std::io::Error>|
                        #[trigger] io_last.flushed(flushed, self.inner.inner.inner.io) && flush_result(
                            flushed,
                            r,
                        )
                } else {
                    stalls(io_last, self.inner.inner.buffer@, self.inner.inner.inner.io, r)
                };
            assert(drains(old(self).spec_io(), old(self).buffered(), 1, io_last, self.buffered()));
            if self.inner.inner.buffer@.len() == 0 {
                let flushed = choose|flushed: Result<(), std::io::Error>|
                    #[trigger] io_last.flushed(flushed, self.inner.inner.inner.io) && flush_result(
                        flushed,
                        r,
                    );
                assert(io_last.flushed(flushed, self.spec_io()));
            }
        }
        r
    }
}

} // verus!
