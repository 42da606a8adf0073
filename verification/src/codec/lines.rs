use vstd::prelude::*;
use vstd::string::StringSliceAdditionalSpecFns;
use vstd::utf8::{decode_utf8, encode_utf8, valid_utf8};

use crate::io_support::{new_utf8_io_error, string_from_utf8};
use crate::framed_read::{absorbs, FrameStep};
use crate::{Decoder, Encoder};

verus! {

/// The byte that ends a line, `b'\n'`.
pub const NEWLINE: u8 = 10;

/// `pos` is where the first `b'\n'` of `bytes` stands.
pub open spec fn first_newline_at(bytes: Seq<u8>, pos: int) -> bool {
    &&& 0 <= pos < bytes.len()
    &&& bytes[pos] == NEWLINE
    &&& forall|j: int| 0 <= j < pos ==> bytes[j] != NEWLINE
}

/// The bytes that encode `line`: its UTF-8 bytes and a `b'\n'`.
pub open spec fn line_encoding(line: &str) -> Seq<u8> {
    line.spec_bytes().push(NEWLINE)
}

/// A simple codec that splits up data into lines.
///
/// Encoding appends the UTF-8 bytes of a string and a `b'\n'`; decoding takes the
/// bytes up to and including the first `b'\n'` and reads them as UTF-8.
#[derive(Debug, Clone, Copy)]
pub struct LinesCodec {}

impl<'a> Encoder<&'a str, Vec<u8>> for LinesCodec {
    type Error = std::io::Error;

    open spec fn encodes(&self, item: &'a str, bytes: Seq<u8>) -> bool {
        bytes == line_encoding(item)
    }

    open spec fn encode_outcome(&self, item: &'a str, r: Result<(), std::io::Error>) -> bool {
        r is Ok
    }

    fn encode(&mut self, item: &'a str, dst: &mut Vec<u8>) -> (r: Result<(), Self::Error>)
        ensures
            r is Ok,
            final(dst)@ == old(dst)@ + line_encoding(item),
    {
        let bytes = item.as_bytes();
        dst.extend_from_slice(bytes);
        dst.push(NEWLINE);
        proof {
            assert(dst@ =~= old(dst)@ + line_encoding(item));
            assert(dst@.take(old(dst)@.len() as int) =~= old(dst)@);
            assert(dst@.skip(old(dst)@.len() as int) =~= line_encoding(item));
        }
        Ok(())
    }
}

impl Decoder<Vec<u8>> for LinesCodec {
    type Item = String;
    type Error = std::io::Error;

    /// The bytes up to and including the first `b'\n'` make up one line, read as
    /// UTF-8; bytes without a `b'\n'` hold no line yet and stay buffered.
    open spec fn decodes(
        &self,
        src: Seq<u8>,
        decoded: Result<Option<String>, std::io::Error>,
        rest: Seq<u8>,
        after: Self,
    ) -> bool {
        &&& after == *self
        &&& (forall|i: int| 0 <= i < src.len() ==> src[i] != NEWLINE) ==> (decoded matches Ok(
            None,
        ) && rest == src)
        &&& forall|pos: int|
            #[trigger] first_newline_at(src, pos) ==> {
                &&& rest == src.skip(pos + 1)
                &&& decoded is Ok <==> valid_utf8(src.take(pos + 1))
                &&& decoded is Ok ==> (decoded matches Ok(Some(line)) && line@ == decode_utf8(
                    src.take(pos + 1),
                ))
            }
    }

    fn decode(&mut self, src: &mut Vec<u8>) -> (decoded: Result<Option<String>, Self::Error>)
    {
        let mut i: usize = 0;
        while i < src.len()
            invariant
                *src == *old(src),
                i <= src@.len(),
                forall|j: int| 0 <= j < i ==> src@[j] != NEWLINE,
            decreases src@.len() - i,
        {
            if src[i] == NEWLINE {
                let mut line = src.split_off(i + 1);
                std::mem::swap(src, &mut line);
                assert(forall|pos: int| first_newline_at(old(src)@, pos) ==> pos == i);
                assert(src@ =~= old(src)@.skip(i + 1));
                assert(line@ =~= old(src)@.take(i + 1));
                let decoded = match string_from_utf8(line) {
                    Ok(s) => Ok(Some(s)),
                    Err(e) => Err(new_utf8_io_error(std::io::ErrorKind::InvalidData, e)),
                };
                assert(<LinesCodec as Decoder<Vec<u8>>>::decodes(self, old(src)@, decoded, src@, *self));
                return decoded;
            }
            i = i + 1;
        }
        let decoded = Ok(None);
        assert(<LinesCodec as Decoder<Vec<u8>>>::decodes(self, old(src)@, decoded, src@, *self));
        decoded
    }

    /// The last attempt decodes as usual.
    fn decode_eof(&mut self, src: &mut Vec<u8>) -> (decoded: Result<Option<String>, Self::Error>) {
        let decoded = self.decode(src);
        assert(<LinesCodec as Decoder<Vec<u8>>>::decodes_eof(
            &*old(self),
            old(src)@,
            decoded,
            src@,
            *self,
        ));
        decoded
    }
}

} // verus!

verus! {

/// The UTF-8 encoding of a scalar other than `'\n'` holds no `b'\n'` byte.
proof fn lemma_scalar_encoding_has_no_newline(c: u32)
    requires
        vstd::utf8::is_scalar(c),
        c != 10,
    ensures
        forall|i: int|
            0 <= i < vstd::utf8::encode_scalar(c).len() ==> #[trigger] vstd::utf8::encode_scalar(
                c,
            )[i] != NEWLINE,
{
    let bytes = vstd::utf8::encode_scalar(c);
    if vstd::utf8::has_width_1_encoding(c) {
        assert((c & 0x7F) as u8 != 10u8) by (bit_vector)
            requires
                c <= 0x7F,
                c != 10,
        ;
    } else {
        assert(forall|y: u8| #[trigger] (0xC0u8 | y) != 10u8) by (bit_vector);
        assert(forall|y: u8| #[trigger] (0xE0u8 | y) != 10u8) by (bit_vector);
        assert(forall|y: u8| #[trigger] (0xF0u8 | y) != 10u8) by (bit_vector);
        assert(forall|y: u8| #[trigger] (0x80u8 | y) != 10u8) by (bit_vector);
    }
}

/// The UTF-8 encoding of a text without `'\n'` holds no `b'\n'` byte.
proof fn lemma_encoding_has_no_newline(chars: Seq<char>)
    requires
        !chars.contains('\n'),
    ensures
        forall|i: int|
            0 <= i < encode_utf8(chars).len() ==> #[trigger] encode_utf8(chars)[i] != NEWLINE,
    decreases chars.len(),
{
    if chars.len() > 0 {
        let c = chars[0];
        vstd::utf8::char_is_scalar(c);
        assert(c as u32 != 10) by {
            if c as u32 == 10 {
                vstd::utf8::char_u32_cast(c, 10);
                vstd::utf8::char_u32_cast('\n', 10);
                assert(chars[0] == '\n');
            }
        }
        lemma_scalar_encoding_has_no_newline(c as u32);
        let rest = chars.drop_first();
        assert forall|x: char| rest.contains(x) implies chars.contains(x) by {
            let k = choose|k: int| 0 <= k < rest.len() && rest[k] == x;
            assert(chars[k + 1] == x);
        }
        lemma_encoding_has_no_newline(rest);
        let head = vstd::utf8::encode_scalar(c as u32);
        assert forall|i: int| 0 <= i < encode_utf8(chars).len() implies #[trigger] encode_utf8(
            chars,
        )[i] != NEWLINE by {
            if i < head.len() {
                assert(encode_utf8(chars)[i] == head[i]);
            } else {
                assert(encode_utf8(chars)[i] == encode_utf8(rest)[i - head.len()]);
            }
        }
    }
}

/// The UTF-8 encoding of a concatenation is the concatenation of the encodings.
proof fn lemma_encoding_concat(a: Seq<char>, b: Seq<char>)
    ensures
        encode_utf8(a + b) == encode_utf8(a) + encode_utf8(b),
    decreases a.len(),
{
    if a.len() == 0 {
        assert(a + b =~= b);
    } else {
        assert((a + b).drop_first() =~= a.drop_first() + b);
        lemma_encoding_concat(a.drop_first(), b);
        assert(encode_utf8(a + b) =~= encode_utf8(a) + encode_utf8(b));
    }
}

/// Line round trip: what `LinesCodec` encodes for a line without `'\n'`, followed in
/// the buffer by any further bytes, decodes as that line with its `'\n'`, and the
/// further bytes stay buffered.
pub proof fn law_line_round_trip<'a>(
    codec: LinesCodec,
    line: &'a str,
    bytes: Seq<u8>,
    rest: Seq<u8>,
    decoded: Result<Option<String>, std::io::Error>,
    left: Seq<u8>,
    codec_after: LinesCodec,
)
    requires
        !line@.contains('\n'),
        <LinesCodec as Encoder<&'a str, Vec<u8>>>::encodes(&codec, line, bytes),
        <LinesCodec as Decoder<Vec<u8>>>::decodes(&codec, bytes + rest, decoded, left, codec_after),
    ensures
        decoded matches Ok(Some(s)) && s@ == line@.push('\n'),
        left == rest,
{
    let text = line@;
    let buffer = bytes + rest;
    let pos = line.spec_bytes().len() as int;
    lemma_encoding_has_no_newline(text);
    lemma_encoding_concat(text, seq!['\n']);
    assert(encode_utf8(seq!['\n']) =~= seq![NEWLINE]) by {
        let nl = seq!['\n'];
        assert(nl.drop_first() =~= Seq::<char>::empty());
        assert(encode_utf8(nl.drop_first()) == Seq::<u8>::empty());
        assert('\n' as u32 == 10);
        assert((10u32 & 0x7F) as u8 == 10u8) by (bit_vector);
        assert(vstd::utf8::encode_scalar(10) == seq![10u8]);
        assert(encode_utf8(nl) == vstd::utf8::encode_scalar(nl[0] as u32) + encode_utf8(
            nl.drop_first(),
        ));
    }
    assert(text.push('\n') =~= text + seq!['\n']);
    assert(buffer.take(pos + 1) =~= encode_utf8(text.push('\n')));
    vstd::utf8::encode_utf8_valid_utf8(text.push('\n'));
    vstd::utf8::encode_utf8_decode_utf8(text.push('\n'));
    assert(buffer.skip(pos + 1) =~= rest);
    assert forall|j: int| 0 <= j < pos implies buffer[j] != NEWLINE by {
        assert(buffer[j] == encode_utf8(text)[j]);
    }
    assert(first_newline_at(buffer, pos));
}

/// A line read back from the stream: when the bytes that `LinesCodec` encodes for a
/// line without `'\n'`, followed by any further bytes, reach a framed stream of lines
/// whose read buffer is empty, the stream yields that line with its `'\n'`, and the
/// further bytes stay buffered.
pub proof fn law_line_read_back<'a>(
    codec: LinesCodec,
    line: &'a str,
    bytes: Seq<u8>,
    rest: Seq<u8>,
    step: FrameStep<String, std::io::Error>,
    after: Seq<u8>,
    codec_after: LinesCodec,
    leftover_fails: bool,
)
    requires
        !line@.contains('\n'),
        <LinesCodec as Encoder<&'a str, Vec<u8>>>::encodes(&codec, line, bytes),
        absorbs::<Vec<u8>, LinesCodec>(
            codec,
            Seq::<u8>::empty(),
            bytes + rest,
            step,
            after,
            codec_after,
            leftover_fails,
        ),
    ensures
        step matches FrameStep::Yield(Some(Ok(s))) && s@ == line@.push('\n'),
        after == rest,
{
    let chunk = bytes + rest;
    assert(chunk.len() > 0);
    assert(Seq::<u8>::empty() + chunk =~= chunk);
    let decoded = choose|decoded: Result<Option<String>, std::io::Error>|
        #[trigger] <LinesCodec as Decoder<Vec<u8>>>::decodes(
            &codec,
            Seq::<u8>::empty() + chunk,
            decoded,
            after,
            codec_after,
        ) && step == crate::framed_read::step_after(decoded);
    law_line_round_trip(codec, line, bytes, rest, decoded, after, codec_after);
}

} // verus!
