use vstd::prelude::*;

use core::ops::{Deref, DerefMut};

use crate::fuse::Fuse;
use crate::io_support::new_io_error;
use crate::{Buffer, Decoder};

verus! {

/// The capacity of a new read buffer, and the most bytes a reader is asked for at once.
pub const INITIAL_CAPACITY: usize = 8192;

/// The error reported when the input ends with bytes that no frame took.
pub(crate) fn err_bytes_remaining() -> std::io::Error {
    new_io_error(std::io::ErrorKind::UnexpectedEof, "bytes remaining in stream")
}

/// What a framed stream does after a decode attempt.
pub enum FrameStep<Item, Error> {
    /// The stream yields this: a frame, an error, or its end (`None`).
    Yield(Option<Result<Item, Error>>),
    /// No frame yet: read more bytes and hand them over.
    ReadMore,
}

/// The step a framed stream takes on `decoded`, what `Decoder::decode` returned, while
/// the input goes on.
pub open spec fn step_after<Item, Error>(decoded: Result<Option<Item>, Error>) -> FrameStep<
    Item,
    Error,
> {
    match decoded {
        Ok(Some(item)) => FrameStep::Yield(Some(Ok(item))),
        Ok(None) => FrameStep::ReadMore,
        Err(e) => FrameStep::Yield(Some(Err(e))),
    }
}

/// `step` is what a framed stream yields on `decoded`, what `Decoder::decode_eof`
/// returned once the input has ended, `leftover` telling whether bytes remain: a frame
/// or an error as returned, and when no frame came, an error if bytes remain and the
/// end of the stream otherwise.
pub open spec fn step_at_end<Item, Error>(
    decoded: Result<Option<Item>, Error>,
    leftover: bool,
    step: FrameStep<Item, Error>,
) -> bool {
    match decoded {
        Ok(Some(item)) => step == FrameStep::<Item, Error>::Yield(Some(Ok(item))),
        Err(e) => step == FrameStep::<Item, Error>::Yield(Some(Err(e))),
        Ok(None) => if leftover {
            step matches FrameStep::Yield(Some(Err(_)))
        } else {
            step == FrameStep::<Item, Error>::Yield(None)
        },
    }
}

/// `step` is what a framed stream does when it first tries the bytes `before` that it
/// has buffered, `after` is what stays buffered and `decoder_after` the decoder then:
/// `decoder` is handed `before`, and the step follows what it returns.
pub open spec fn decodes_buffered<B: Buffer, D: Decoder<B>>(
    decoder: D,
    before: Seq<u8>,
    step: FrameStep<D::Item, D::Error>,
    after: Seq<u8>,
    decoder_after: D,
) -> bool {
    exists|decoded: Result<Option<D::Item>, D::Error>|
        #[trigger] decoder.decodes(before, decoded, after, decoder_after) && step == step_after(
            decoded,
        )
}

/// `step` is what a framed stream does when `chunk`, the bytes of one read, arrives at
/// a read buffer holding `before`; `after` is what stays buffered and `decoder_after`
/// the decoder then.
///
/// While the input goes on (a non-empty chunk), `decoder` is handed `before` followed
/// by `chunk`, and the step follows what it returns. An empty chunk means the input has
/// ended: `decoder` is handed `before`; a frame or an error is yielded as it returns
/// it; if it finds no frame, the stream ends when nothing stays buffered, and
/// otherwise the decoder, as `decode` left it, gets its last attempt through its own
/// `decode_eof` on the bytes left, and the step is what `step_at_end` gives for that
/// outcome. When that attempt finds no frame, bytes it leaves are an error if
/// `leftover_fails`, as for an asynchronous stream; otherwise the stream ends and they
/// stay buffered, as for a blocking one.
pub open spec fn absorbs<B: Buffer, D: Decoder<B>>(
    decoder: D,
    before: Seq<u8>,
    chunk: Seq<u8>,
    step: FrameStep<D::Item, D::Error>,
    after: Seq<u8>,
    decoder_after: D,
    leftover_fails: bool,
) -> bool {
    &&& chunk.len() > 0 ==> exists|decoded: Result<Option<D::Item>, D::Error>|
        #[trigger] decoder.decodes(before + chunk, decoded, after, decoder_after) && step
            == step_after(decoded)
    &&& chunk.len() == 0 ==> exists|
        decoded: Result<Option<D::Item>, D::Error>,
        rest: Seq<u8>,
        decoder_mid: D,
    |
        #[trigger] decoder.decodes(before, decoded, rest, decoder_mid) && if decoded matches Ok(
            None,
        ) {
            if rest.len() == 0 {
                step == FrameStep::<D::Item, D::Error>::Yield(None) && after == rest
                    && decoder_after == decoder_mid
            } else {
                exists|decoded_eof: Result<Option<D::Item>, D::Error>|
                    #[trigger] decoder_mid.decodes_eof(rest, decoded_eof, after, decoder_after)
                        && step_at_end(decoded_eof, leftover_fails && after.len() > 0, step)
            }
        } else {
            step == step_after(decoded) && after == rest && decoder_after == decoder_mid
        }
    &&& leftover_fails ==> (step matches FrameStep::Yield(None) ==> after.len() == 0)
}

impl<Item, Error> FrameStep<Item, Error> {
    /// The step that follows what `Decoder::decode` returned while the input goes on.
    pub fn after_decode(decoded: Result<Option<Item>, Error>) -> (step: Self)
        ensures
            step == step_after(decoded),
    {
        match decoded {
            Ok(Some(item)) => FrameStep::Yield(Some(Ok(item))),
            Ok(None) => FrameStep::ReadMore,
            Err(e) => FrameStep::Yield(Some(Err(e))),
        }
    }

    /// The step that follows what `Decoder::decode_eof` returned once the input has
    /// ended, `leftover` telling whether bytes remain in the buffer after it.
    pub fn after_decode_eof(decoded: Result<Option<Item>, Error>, leftover: bool) -> (step: Self)
        where Error: From<std::io::Error>,
        ensures
            step_at_end(decoded, leftover, step),
    {
        match decoded {
            Ok(Some(item)) => FrameStep::Yield(Some(Ok(item))),
            Err(e) => FrameStep::Yield(Some(Err(e))),
            Ok(None) => if leftover {
                FrameStep::Yield(Some(Err(err_bytes_remaining().into())))
            } else {
                FrameStep::Yield(None)
            },
        }
    }
}

/// Attempts to decode a frame from the bytes already buffered.
pub(crate) fn decode_buffered<B: Buffer, D: Decoder<B>>(
    decoder: &mut D,
    buffer: &mut B,
) -> (step: FrameStep<D::Item, D::Error>)
    ensures
        decodes_buffered::<B, D>(
            *old(decoder),
            old(buffer)@,
            step,
            final(buffer)@,
            *final(decoder),
        ),
{
    let decoded = decoder.decode(buffer);
    let ghost d = decoded;
    let step = FrameStep::after_decode(decoded);
    assert(old(decoder).decodes(old(buffer)@, d, buffer@, *decoder));
    step
}

/// Appends `chunk`, the bytes of one read, to the buffer and attempts to decode a
/// frame. An empty chunk means the input has ended: the decoder then gets its last
/// attempt through `decode_eof`, and bytes that no frame took are an error if
/// `leftover_fails`.
pub(crate) fn absorb<B: Buffer, D: Decoder<B>>(
    decoder: &mut D,
    buffer: &mut B,
    chunk: &[u8],
    leftover_fails: bool,
) -> (step: FrameStep<D::Item, D::Error>)
    ensures
        absorbs::<B, D>(
            *old(decoder),
            old(buffer)@,
            chunk@,
            step,
            final(buffer)@,
            *final(decoder),
            leftover_fails,
        ),
{
    buffer.extend_from_slice(chunk);
    let ended = chunk.len() == 0;
    if ended {
        assert(buffer@ =~= old(buffer)@);
    }
    let decoded = decoder.decode(buffer);
    let ghost d = decoded;
    let ghost rest = buffer@;
    let ghost d_mid = *decoder;
    assert(old(decoder).decodes(old(buffer)@ + chunk@, d, rest, d_mid));
    match decoded {
        Ok(None) => {
            if !ended {
                FrameStep::ReadMore
            } else if buffer.is_empty() {
                FrameStep::Yield(None)
            } else {
                let last = decoder.decode_eof(buffer);
                let ghost l = last;
                let leftover = leftover_fails && !buffer.is_empty();
                let step = FrameStep::after_decode_eof(last, leftover);
                assert(d_mid.decodes_eof(rest, l, buffer@, *decoder));
                step
            }
        },
        _ => FrameStep::after_decode(decoded),
    }
}

/// `rest` is what stays of `src` once a decoder has taken bytes from its front.
pub open spec fn takes_front(src: Seq<u8>, rest: Seq<u8>) -> bool {
    rest.len() <= src.len() && rest == src.skip(src.len() - rest.len())
}

/// The bytes that the decoder took over a run of reads: at each, from the buffer
/// `buffers[i]` followed by the chunk `chunks[i]`, what does not stay in `buffers[i + 1]`.
pub open spec fn taken_over(buffers: Seq<Seq<u8>>, chunks: Seq<Seq<u8>>) -> Seq<u8>
    decreases chunks.len(),
{
    if chunks.len() == 0 {
        Seq::empty()
    } else {
        let src = buffers[0] + chunks[0];
        src.take(src.len() - buffers[1].len()) + taken_over(
            buffers.drop_first(),
            chunks.drop_first(),
        )
    }
}

/// A step of a framed stream takes bytes only from the front of what it holds, when
/// its decoder's `decode` and `decode_eof` do: what stays buffered is what was buffered
/// followed by the chunk, less some bytes from the front.
pub proof fn lemma_absorbs_takes_front<B: Buffer, D: Decoder<B>>(
    decoder: D,
    before: Seq<u8>,
    chunk: Seq<u8>,
    step: FrameStep<D::Item, D::Error>,
    after: Seq<u8>,
    decoder_after: D,
    leftover_fails: bool,
)
    requires
        absorbs::<B, D>(decoder, before, chunk, step, after, decoder_after, leftover_fails),
        forall|d: D, src: Seq<u8>, decoded: Result<Option<D::Item>, D::Error>, rest: Seq<u8>, e: D|
            #[trigger] d.decodes(src, decoded, rest, e) ==> takes_front(src, rest),
        forall|d: D, src: Seq<u8>, decoded: Result<Option<D::Item>, D::Error>, rest: Seq<u8>, e: D|
            #[trigger] d.decodes_eof(src, decoded, rest, e) ==> takes_front(src, rest),
    ensures
        takes_front(before + chunk, after),
{
    if chunk.len() > 0 {
        let decoded = choose|decoded: Result<Option<D::Item>, D::Error>|
            #[trigger] decoder.decodes(before + chunk, decoded, after, decoder_after) && step
                == step_after(decoded);
    } else {
        assert(before + chunk =~= before);
        let (decoded, rest, decoder_mid) = choose|
            decoded: Result<Option<D::Item>, D::Error>,
            rest: Seq<u8>,
            decoder_mid: D,
        |
            #[trigger] decoder.decodes(before, decoded, rest, decoder_mid) && if decoded matches Ok(
                None,
            ) {
                if rest.len() == 0 {
                    step == FrameStep::<D::Item, D::Error>::Yield(None) && after == rest
                        && decoder_after == decoder_mid
                } else {
                    exists|decoded_eof: Result<Option<D::Item>, D::Error>|
                        #[trigger] decoder_mid.decodes_eof(rest, decoded_eof, after, decoder_after)
                            && step_at_end(decoded_eof, leftover_fails && after.len() > 0, step)
                }
            } else {
                step == step_after(decoded) && after == rest && decoder_after == decoder_mid
            };
        assert(takes_front(before, rest));
        if decoded matches Ok(None) && rest.len() > 0 {
            let decoded_eof = choose|decoded_eof: Result<Option<D::Item>, D::Error>|
                #[trigger] decoder_mid.decodes_eof(rest, decoded_eof, after, decoder_after)
                    && step_at_end(decoded_eof, leftover_fails && after.len() > 0, step);
            assert(takes_front(rest, after));
            assert(before.skip(before.len() - rest.len()).skip(rest.len() - after.len())
                =~= before.skip(before.len() - after.len()));
        }
    }
}

/// A framed stream drops, adds and reorders no byte: over a run of steps, each a chunk
/// handed to `absorb` (an empty one meaning the input has ended), with a decoder whose
/// `decode` and `decode_eof` take bytes from the front of what they are handed, the
/// bytes the decoder took followed by what stays buffered are the bytes buffered at the
/// start followed by every chunk, in order.
pub proof fn law_stream_keeps_bytes<B: Buffer, D: Decoder<B>>(
    decoders: Seq<D>,
    buffers: Seq<Seq<u8>>,
    chunks: Seq<Seq<u8>>,
    steps: Seq<FrameStep<D::Item, D::Error>>,
    leftover_fails: bool,
)
    requires
        buffers.len() == chunks.len() + 1,
        decoders.len() == chunks.len() + 1,
        steps.len() == chunks.len(),
        forall|i: int|
            #![trigger steps[i]]
            0 <= i < chunks.len() ==> absorbs::<B, D>(
                decoders[i],
                buffers[i],
                chunks[i],
                steps[i],
                buffers[i + 1],
                decoders[i + 1],
                leftover_fails,
            ),
        forall|d: D, src: Seq<u8>, decoded: Result<Option<D::Item>, D::Error>, rest: Seq<u8>, e: D|
            #[trigger] d.decodes(src, decoded, rest, e) ==> takes_front(src, rest),
        forall|d: D, src: Seq<u8>, decoded: Result<Option<D::Item>, D::Error>, rest: Seq<u8>, e: D|
            #[trigger] d.decodes_eof(src, decoded, rest, e) ==> takes_front(src, rest),
    ensures
        taken_over(buffers, chunks) + buffers.last() == buffers[0] + chunks.flatten(),
    decreases chunks.len(),
{
    if chunks.len() == 0 {
        assert(chunks.flatten() =~= Seq::<u8>::empty());
        assert(taken_over(buffers, chunks) + buffers.last() =~= buffers[0] + chunks.flatten());
    } else {
        let step0 = steps[0];
        assert(absorbs::<B, D>(
            decoders[0],
            buffers[0],
            chunks[0],
            step0,
            buffers[1],
            decoders[1],
            leftover_fails,
        ));
        lemma_absorbs_takes_front::<B, D>(
            decoders[0],
            buffers[0],
            chunks[0],
            step0,
            buffers[1],
            decoders[1],
            leftover_fails,
        );
        let src = buffers[0] + chunks[0];
        let rest_buffers = buffers.drop_first();
        let rest_chunks = chunks.drop_first();
        assert forall|i: int|
            #![trigger steps.drop_first()[i]]
            0 <= i < rest_chunks.len() implies absorbs::<B, D>(
            decoders.drop_first()[i],
            rest_buffers[i],
            rest_chunks[i],
            steps.drop_first()[i],
            rest_buffers[i + 1],
            decoders.drop_first()[i + 1],
            leftover_fails,
        ) by {
            let step = steps[i + 1];
            assert(steps.drop_first()[i] == step);
        }
        law_stream_keeps_bytes::<B, D>(
            decoders.drop_first(),
            rest_buffers,
            rest_chunks,
            steps.drop_first(),
            leftover_fails,
        );
        let taken0 = src.take(src.len() - buffers[1].len());
        assert(taken0 + buffers[1] =~= src);
        assert(rest_buffers.last() == buffers.last());
        assert(chunks.flatten() == chunks[0] + rest_chunks.flatten());
        assert(taken_over(buffers, chunks) == taken0 + taken_over(rest_buffers, rest_chunks));
        let rest_taken = taken_over(rest_buffers, rest_chunks);
        assert(rest_buffers[0] == buffers[1]);
        assert(rest_taken + buffers.last() == buffers[1] + rest_chunks.flatten());
        assert((taken0 + rest_taken) + buffers.last() =~= taken0 + (rest_taken + buffers.last()));
        assert(taken0 + (buffers[1] + rest_chunks.flatten()) =~= (taken0 + buffers[1])
            + rest_chunks.flatten());
        assert((buffers[0] + chunks[0]) + rest_chunks.flatten() =~= buffers[0] + (chunks[0]
            + rest_chunks.flatten()));
    }
}

/// The read half of a framed transport: a buffer of read bytes behind `inner`.
pub struct FramedReadImpl<T, B> {
    pub inner: T,
    pub buffer: B,
}

impl<T, B: Buffer> FramedReadImpl<T, B> {
    pub fn new(inner: T) -> (r: Self)
        ensures
            r.inner == inner,
            r.buffer@ == Seq::<u8>::empty(),
    {
        Self { inner, buffer: B::with_capacity(INITIAL_CAPACITY) }
    }

    pub fn release(self) -> (r: T)
        ensures
            r == self.inner,
    {
        self.inner
    }

    pub fn buffer(&self) -> (r: &B)
        ensures
            *r == self.buffer,
    {
        &self.buffer
    }
}

impl<T, B> core::ops::Deref for FramedReadImpl<T, B> {
    type Target = T;

    fn deref(&self) -> (r: &T)
        ensures
            *r == self.inner,
    {
        &self.inner
    }
}

impl<T, B> core::ops::DerefMut for FramedReadImpl<T, B> {
    fn deref_mut(&mut self) -> (r: &mut T)
        ensures
            *r == old(self).inner,
            final(self).inner == *final(r),
            final(self).buffer == old(self).buffer,
    {
        &mut self.inner
    }
}

/// A stream of frames decoded from a reader.
///
/// The reader's bytes are collected in a read buffer, from which the decoder takes
/// frames. Reading itself is done by the caller, who hands each chunk it read to
/// [`FramedRead::absorb`].
pub struct FramedRead<T, D, B> {
    inner: FramedReadImpl<Fuse<T, D>, B>,
}

impl<T, D, B> FramedRead<T, D, B> {
    /// The reader the frames come from.
    pub closed spec fn spec_io(&self) -> T {
        self.inner.inner.io
    }

    /// The decoder that finds the frames.
    pub closed spec fn spec_decoder(&self) -> D {
        self.inner.inner.codec
    }

    /// The read buffer.
    pub closed spec fn spec_buffer(&self) -> B {
        self.inner.buffer
    }
}

impl<T, D, B: Buffer> FramedRead<T, D, B> {
    /// Creates a new `FramedRead` transport with the given `Decoder`.
    pub fn new(inner: T, decoder: D) -> (r: Self)
        ensures
            r.spec_io() == inner,
            r.spec_decoder() == decoder,
            r.spec_buffer()@ == Seq::<u8>::empty(),
    {
        Self { inner: FramedReadImpl::new(Fuse::new(inner, decoder)) }
    }

    /// Release the I/O and Decoder
    pub fn release(self) -> (r: (T, D))
        ensures
            r == (self.spec_io(), self.spec_decoder()),
    {
        let fuse = self.inner.release();
        (fuse.io, fuse.codec)
    }

    /// Consumes the `FramedRead`, returning its underlying I/O stream.
    ///
    /// Note that care should be taken to not tamper with the underlying stream
    /// of data coming in as it may corrupt the stream of frames otherwise
    /// being worked with.
    pub fn into_inner(self) -> (r: T)
        ensures
            r == self.spec_io(),
    {
        self.release().0
    }

    /// Returns a reference to the underlying decoder.
    ///
    /// Note that care should be taken to not tamper with the underlying decoder
    /// as it may corrupt the stream of frames otherwise being worked with.
    pub fn decoder(&self) -> (r: &D)
        ensures
            *r == self.spec_decoder(),
    {
        &self.inner.inner.codec
    }

    /// Returns a mutable reference to the underlying decoder.
    ///
    /// Note that care should be taken to not tamper with the underlying decoder
    /// as it may corrupt the stream of frames otherwise being worked with.
    pub fn decoder_mut(&mut self) -> (r: &mut D)
        ensures
            *r == old(self).spec_decoder(),
            final(self).spec_decoder() == *final(r),
            final(self).spec_io() == old(self).spec_io(),
            final(self).spec_buffer() == old(self).spec_buffer(),
    {
        &mut self.inner.inner.codec
    }

    /// Returns a reference to the read buffer.
    pub fn buffer(&self) -> (r: &B)
        ensures
            *r == self.spec_buffer(),
    {
        self.inner.buffer()
    }

    /// Attempts to decode a frame from the bytes already buffered, as the stream
    /// does first when the next frame is asked for.
    pub fn decode_buffered(&mut self) -> (step: FrameStep<D::Item, D::Error>) where D: Decoder<B>,
        ensures
            final(self).spec_io() == old(self).spec_io(),
            decodes_buffered::<B, D>(
                old(self).spec_decoder(),
                old(self).spec_buffer()@,
                step,
                final(self).spec_buffer()@,
                final(self).spec_decoder(),
            ),
    {
        decode_buffered(&mut self.inner.inner.codec, &mut self.inner.buffer)
    }

    /// Takes `chunk`, the bytes of one read from the reader, at the back of the read
    /// buffer and attempts to decode a frame, as an asynchronous stream does. An empty
    /// chunk means the reader has ended: the decoder gets its last attempt through
    /// `decode_eof`, and bytes that no frame took are an `UnexpectedEof` error.
    pub fn absorb(&mut self, chunk: &[u8]) -> (step: FrameStep<D::Item, D::Error>) where
        D: Decoder<B>,
        ensures
            final(self).spec_io() == old(self).spec_io(),
            absorbs::<B, D>(
                old(self).spec_decoder(),
                old(self).spec_buffer()@,
                chunk@,
                step,
                final(self).spec_buffer()@,
                final(self).spec_decoder(),
                true,
            ),
    {
        absorb(&mut self.inner.inner.codec, &mut self.inner.buffer, chunk, true)
    }

    /// Takes `chunk`, the bytes of one read from the reader, at the back of the read
    /// buffer and attempts to decode a frame, as a blocking iterator does. An empty
    /// chunk means the reader has ended: the decoder gets its last attempt through
    /// `decode_eof`, and when it finds no frame the stream ends, whatever bytes stay
    /// buffered.
    pub fn absorb_blocking(&mut self, chunk: &[u8]) -> (step: FrameStep<D::Item, D::Error>) where
        D: Decoder<B>,
        ensures
            final(self).spec_io() == old(self).spec_io(),
            absorbs::<B, D>(
                old(self).spec_decoder(),
                old(self).spec_buffer()@,
                chunk@,
                step,
                final(self).spec_buffer()@,
                final(self).spec_decoder(),
                false,
            ),
    {
        absorb(&mut self.inner.inner.codec, &mut self.inner.buffer, chunk, false)
    }
}

impl<T, D, B> core::ops::Deref for FramedRead<T, D, B> {
    type Target = T;

    fn deref(&self) -> (r: &T)
        ensures
            *r == self.spec_io(),
    {
        self.inner.deref().deref()
    }
}

impl<T, D, B> core::ops::DerefMut for FramedRead<T, D, B> {
    fn deref_mut(&mut self) -> (r: &mut T)
        ensures
            *r == old(self).spec_io(),
            final(self).spec_io() == *final(r),
            final(self).spec_decoder() == old(self).spec_decoder(),
            final(self).spec_buffer() == old(self).spec_buffer(),
    {
        self.inner.deref_mut().deref_mut()
    }
}

} // verus!
