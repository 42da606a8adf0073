use vstd::prelude::*;

use crate::buffer::appended;
use crate::Buffer;

verus! {

/// Encoding of messages as bytes, for use with `FramedWrite`.
pub trait Encoder<Item, Buf: Buffer> {
    /// The type of encoding errors.
    type Error: From<std::io::Error>;

    /// Whether `bytes` are what encoding `item` appends to the destination buffer.
    /// An encoder that says nothing more allows any bytes.
    open spec fn encodes(&self, item: Item, bytes: Seq<u8>) -> bool {
        true
    }

    /// Whether encoding `item` may end in `r`.
    /// An encoder that says nothing more allows any outcome.
    open spec fn encode_outcome(&self, item: Item, r: Result<(), Self::Error>) -> bool {
        true
    }

    /// Encodes an item into the buffer provided by dst: the bytes already there stay,
    /// and the item's encoding follows them.
    fn encode(&mut self, item: Item, dst: &mut Buf) -> (r: Result<(), Self::Error>)
        ensures
            old(self).encode_outcome(item, r),
            r is Ok ==> appended(old(dst)@, final(dst)@) && old(self).encodes(
                item,
                final(dst)@.skip(old(dst)@.len() as int),
            ),
    ;
}

} // verus!
