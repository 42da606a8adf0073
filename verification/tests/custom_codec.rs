use std::io;

use dencode::{Decoder, Encoder, FrameStep, FramedRead, FramedWrite, IterSinkExt};

// A codec of one-byte-length-prefixed frames, written outside the library.
struct LengthPrefixed;

impl Encoder<Vec<u8>, Vec<u8>> for LengthPrefixed {
    type Error = io::Error;

    fn encode(&mut self, item: Vec<u8>, dst: &mut Vec<u8>) -> Result<(), io::Error> {
        if item.len() > 255 {
            return Err(io::Error::new(io::ErrorKind::InvalidInput, "frame too long"));
        }
        dst.push(item.len() as u8);
        dst.extend_from_slice(&item);
        Ok(())
    }
}

impl Decoder<Vec<u8>> for LengthPrefixed {
    type Item = Vec<u8>;
    type Error = io::Error;

    fn decode(&mut self, src: &mut Vec<u8>) -> Result<Option<Vec<u8>>, io::Error> {
        match src.first() {
            Some(&n) if src.len() > n as usize => {
                let frame = src[1..=n as usize].to_vec();
                src.drain(..=n as usize);
                Ok(Some(frame))
            }
            _ => Ok(None),
        }
    }

    fn decode_eof(&mut self, src: &mut Vec<u8>) -> Result<Option<Vec<u8>>, io::Error> {
        self.decode(src)
    }
}

#[test]
fn user_codec_round_trip() {
    let mut framer = FramedWrite::new(Vec::new(), LengthPrefixed);
    framer.send(b"ab".to_vec()).unwrap();
    framer.send(b"xyz".to_vec()).unwrap();
    let wire = framer.into_inner();
    assert_eq!(wire, vec![2, b'a', b'b', 3, b'x', b'y', b'z']);

    let mut framed = FramedRead::new((), LengthPrefixed);
    assert!(matches!(framed.absorb(&wire[..4]), FrameStep::Yield(Some(Ok(ref f))) if f == b"ab"));
    assert!(matches!(framed.absorb(&wire[4..]), FrameStep::Yield(Some(Ok(ref f))) if f == b"xyz"));
    assert!(matches!(framed.absorb(&[]), FrameStep::Yield(None)));
}

#[test]
fn user_codec_error_stops_send() {
    let mut framer = FramedWrite::new(Vec::new(), LengthPrefixed);
    let err = framer.send(vec![0u8; 300]).unwrap_err();
    assert_eq!(err.kind(), io::ErrorKind::InvalidInput);
    assert!(framer.write_buffer().is_empty());
}

// A decoder of newline-ended records whose last attempt takes an unended record too.
struct Records;

impl Decoder<Vec<u8>> for Records {
    type Item = Vec<u8>;
    type Error = io::Error;

    fn decode(&mut self, src: &mut Vec<u8>) -> Result<Option<Vec<u8>>, io::Error> {
        match src.iter().position(|b| *b == b'\n') {
            Some(pos) => Ok(Some(src.drain(..=pos).collect())),
            None => Ok(None),
        }
    }

    fn decode_eof(&mut self, src: &mut Vec<u8>) -> Result<Option<Vec<u8>>, io::Error> {
        match self.decode(src)? {
            Some(frame) => Ok(Some(frame)),
            None if src.is_empty() => Ok(None),
            None => Ok(Some(src.drain(..).collect())),
        }
    }
}

#[test]
fn last_attempt_uses_the_decoders_own_decode_eof() {
    let mut stream = FramedRead::new((), Records);
    assert!(matches!(stream.absorb(b"a\nbc"), FrameStep::Yield(Some(Ok(ref f))) if f == b"a\n"));
    assert!(matches!(stream.absorb(b""), FrameStep::Yield(Some(Ok(ref f))) if f == b"bc"));
    assert!(matches!(stream.absorb(b""), FrameStep::Yield(None)));

    let mut blocking = FramedRead::new((), Records);
    assert!(matches!(blocking.absorb_blocking(b"xy"), FrameStep::ReadMore));
    assert!(matches!(blocking.absorb_blocking(b""), FrameStep::Yield(Some(Ok(ref f))) if f == b"xy"));
    assert!(matches!(blocking.absorb_blocking(b""), FrameStep::Yield(None)));
}
