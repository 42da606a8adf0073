use vstd::prelude::*;

use crate::framed_read::{absorbs, step_after, FrameStep};
use crate::{Buffer, Decoder, Encoder};

verus! {

/// A simple codec that ships bytes around: encoding appends an item's bytes, and
/// decoding takes every buffered byte as one item.
#[derive(Debug, Clone, Copy)]
pub struct BytesCodec {}

impl<Buf: Buffer> Encoder<Vec<u8>, Buf> for BytesCodec {
    type Error = std::io::Error;

    open spec fn encodes(&self, item: Vec<u8>, bytes: Seq<u8>) -> bool {
        bytes == item@
    }

    open spec fn encode_outcome(&self, item: Vec<u8>, r: Result<(), std::io::Error>) -> bool {
        r is Ok
    }

    fn encode(&mut self, item: Vec<u8>, dst: &mut Buf) -> (r: Result<(), Self::Error>)
        ensures
            r is Ok,
            final(dst)@ == old(dst)@ + item@,
    {
        dst.extend_from_slice(item.as_slice());
        proof {
            assert(dst@.take(old(dst)@.len() as int) =~= old(dst)@);
            assert(dst@.skip(old(dst)@.len() as int) =~= item@);
        }
        Ok(())
    }
}

impl<Buf: Buffer> Decoder<Buf> for BytesCodec {
    type Item = Vec<u8>;
    type Error = std::io::Error;

    /// Every buffered byte makes up one item; an empty buffer holds no item yet.
    open spec fn decodes(
        &self,
        src: Seq<u8>,
        decoded: Result<Option<Vec<u8>>, std::io::Error>,
        rest: Seq<u8>,
        after: Self,
    ) -> bool {
        &&& after == *self
        &&& if src.len() == 0 {
            decoded matches Ok(None) && rest == src
        } else {
            decoded matches Ok(Some(item)) && item@ == src && rest == Seq::<u8>::empty()
        }
    }

    fn decode(&mut self, src: &mut Buf) -> (decoded: Result<Option<Vec<u8>>, Self::Error>) {
        let len = src.len();
        let decoded = if len > 0 {
            let item = vstd::slice::slice_to_vec(src.as_slice());
            src.advance(len);
            assert(src@ =~= Seq::<u8>::empty());
            Ok(Some(item))
        } else {
            Ok(None)
        };
        assert(<BytesCodec as Decoder<Buf>>::decodes(self, old(src)@, decoded, src@, *self));
        decoded
    }

    /// The last attempt decodes as usual.
    fn decode_eof(&mut self, src: &mut Buf) -> (decoded: Result<Option<Vec<u8>>, Self::Error>) {
        let decoded = self.decode(src);
        assert(<BytesCodec as Decoder<Buf>>::decodes_eof(
            &*old(self),
            old(src)@,
            decoded,
            src@,
            *self,
        ));
        decoded
    }
}

} // verus!

verus! {

/// Bytes round trip: what `BytesCodec` encodes for a non-empty item, decoded from a
/// buffer that held nothing else, gives back the item and leaves the buffer empty.
pub proof fn law_bytes_round_trip<Buf: Buffer>(
    codec: BytesCodec,
    item: Vec<u8>,
    bytes: Seq<u8>,
    decoded: Result<Option<Vec<u8>>, std::io::Error>,
    rest: Seq<u8>,
    codec_after: BytesCodec,
)
    requires
        item@.len() > 0,
        <BytesCodec as Encoder<Vec<u8>, Buf>>::encodes(&codec, item, bytes),
        <BytesCodec as Decoder<Buf>>::decodes(&codec, bytes, decoded, rest, codec_after),
    ensures
        decoded matches Ok(Some(out)) && out@ == item@,
        rest == Seq::<u8>::empty(),
{
}

/// Bytes read back from the stream: when the bytes that `BytesCodec` encodes for a
/// non-empty item reach a framed stream of bytes whose read buffer is empty, the
/// stream yields the item, whole, and nothing stays buffered.
pub proof fn law_bytes_read_back<Buf: Buffer>(
    codec: BytesCodec,
    item: Vec<u8>,
    bytes: Seq<u8>,
    step: FrameStep<Vec<u8>, std::io::Error>,
    after: Seq<u8>,
    codec_after: BytesCodec,
    leftover_fails: bool,
)
    requires
        item@.len() > 0,
        <BytesCodec as Encoder<Vec<u8>, Buf>>::encodes(&codec, item, bytes),
        absorbs::<Buf, BytesCodec>(
            codec,
            Seq::<u8>::empty(),
            bytes,
            step,
            after,
            codec_after,
            leftover_fails,
        ),
    ensures
        step matches FrameStep::Yield(Some(Ok(out))) && out@ == item@,
        after == Seq::<u8>::empty(),
{
    assert(Seq::<u8>::empty() + bytes =~= bytes);
    let decoded = choose|decoded: Result<Option<Vec<u8>>, std::io::Error>|
        #[trigger] <BytesCodec as Decoder<Buf>>::decodes(
            &codec,
            Seq::<u8>::empty() + bytes,
            decoded,
            after,
            codec_after,
        ) && step == step_after(decoded);
    law_bytes_round_trip::<Buf>(codec, item, bytes, decoded, after, codec_after);
}

} // verus!
