use vstd::prelude::*;

use crate::Buffer;

verus! {

/// Decoding of frames via buffers, for use with `FramedRead`.
pub trait Decoder<Buf: Buffer>: Sized {
    /// The type of items returned by `decode`.
    type Item;
    /// The type of decoding errors.
    type Error: From<std::io::Error>;

    /// Whether `decode`, handed a buffer holding `src`, may return `decoded`, leave
    /// `rest` in the buffer and leave the decoder as `after`.
    /// A decoder that says nothing more allows any outcome.
    open spec fn decodes(
        &self,
        src: Seq<u8>,
        decoded: Result<Option<Self::Item>, Self::Error>,
        rest: Seq<u8>,
        after: Self,
    ) -> bool {
        true
    }

    /// Whether `decode_eof`, handed a buffer holding `src` once the input has ended, may
    /// return `decoded`, leave `rest` in the buffer and leave the decoder as `after`.
    /// By default this is what `decodes` allows, for a decoder whose last attempt
    /// decodes as usual.
    open spec fn decodes_eof(
        &self,
        src: Seq<u8>,
        decoded: Result<Option<Self::Item>, Self::Error>,
        rest: Seq<u8>,
        after: Self,
    ) -> bool {
        self.decodes(src, decoded, rest, after)
    }

    /// Decode an item from the src Buffer into an item.
    fn decode(&mut self, src: &mut Buf) -> (decoded: Result<Option<Self::Item>, Self::Error>)
        ensures
            old(self).decodes(old(src)@, decoded, final(src)@, *final(self)),
    ;

    /// Called when the input stream reaches EOF, signaling a last attempt to decode.
    ///
    /// A decoder with nothing special to do at the end decodes as usual, by calling
    /// `Decoder::decode`.
    fn decode_eof(&mut self, src: &mut Buf) -> (decoded: Result<Option<Self::Item>, Self::Error>)
        ensures
            old(self).decodes_eof(old(src)@, decoded, final(src)@, *final(self)),
    ;
}

} // verus!
