use std::io;

use dencode::{BytesCodec, Decoder, FrameStep, FramedRead, LinesCodec};

// Drives a FramedRead over a std reader the way a blocking stream does.
fn next_frame<R: io::Read, D: Decoder<Vec<u8>>>(
    framed: &mut FramedRead<R, D, Vec<u8>>,
    chunk_size: usize,
) -> Option<Result<D::Item, D::Error>> {
    if let FrameStep::Yield(out) = framed.decode_buffered() {
        return out;
    }
    let mut buf = vec![0u8; chunk_size];
    loop {
        let n = match io::Read::read(&mut **framed, &mut buf) {
            Ok(n) => n,
            Err(e) => return Some(Err(e.into())),
        };
        if let FrameStep::Yield(out) = framed.absorb_blocking(&buf[..n]) {
            return out;
        }
    }
}

#[test]
fn reads_lines() {
    let input = "hello\nworld\nthis\nis\ndog\n".as_bytes();
    let mut lines = FramedRead::new(input, LinesCodec {});
    let mut got = Vec::new();
    while let Some(line) = next_frame(&mut lines, 3) {
        got.push(line.unwrap());
    }
    assert_eq!(got, vec!["hello\n", "world\n", "this\n", "is\n", "dog\n"]);
}

#[test]
fn reads_bytes_in_one_frame() {
    let buf = [3u8; 3];
    let mut framed = FramedRead::new(&buf[..], BytesCodec {});
    let bytes = next_frame(&mut framed, 8192).unwrap().unwrap();
    assert_eq!(bytes, buf.to_vec());
    assert!(next_frame(&mut framed, 8192).is_none());
}

#[test]
fn trailing_partial_line_ends_blocking_stream() {
    let input = "one\ntwo".as_bytes();
    let mut lines = FramedRead::new(input, LinesCodec {});
    assert_eq!(next_frame(&mut lines, 64).unwrap().unwrap(), "one\n");
    assert!(next_frame(&mut lines, 64).is_none());
    assert_eq!(lines.buffer(), b"two");
}

#[test]
fn absorb_steps() {
    let mut lines: FramedRead<(), LinesCodec, Vec<u8>> = FramedRead::new((), LinesCodec {});
    assert!(matches!(lines.decode_buffered(), FrameStep::ReadMore));
    assert!(matches!(lines.absorb(b"ab"), FrameStep::ReadMore));
    assert_eq!(lines.buffer(), b"ab");
    match lines.absorb(b"c\nd") {
        FrameStep::Yield(Some(Ok(line))) => assert_eq!(line, "abc\n"),
        _ => panic!("expected a line"),
    }
    assert_eq!(lines.buffer(), b"d");
    match lines.absorb(b"") {
        FrameStep::Yield(Some(Err(e))) => assert_eq!(e.kind(), io::ErrorKind::UnexpectedEof),
        _ => panic!("expected an error"),
    }
}

#[test]
fn end_of_input_with_empty_buffer_ends_stream() {
    let mut framed: FramedRead<(), BytesCodec, Vec<u8>> = FramedRead::new((), BytesCodec {});
    assert!(matches!(framed.absorb(b""), FrameStep::Yield(None)));
}

#[test]
fn release_and_accessors() {
    let mut framed: FramedRead<Vec<u8>, LinesCodec, Vec<u8>> = FramedRead::new(vec![1u8], LinesCodec {});
    assert_eq!(*framed, vec![1u8]);
    framed.push(2);
    let _d: &LinesCodec = framed.decoder();
    let _d: &mut LinesCodec = framed.decoder_mut();
    assert!(framed.buffer().is_empty());
    let (io, _codec) = framed.release();
    assert_eq!(io, vec![1u8, 2]);
    let framed: FramedRead<Vec<u8>, LinesCodec, Vec<u8>> = FramedRead::new(vec![5u8], LinesCodec {});
    assert_eq!(framed.into_inner(), vec![5u8]);
}

#[test]
fn frame_step_after_decode() {
    let s: FrameStep<u8, io::Error> = FrameStep::after_decode(Ok(Some(4)));
    assert!(matches!(s, FrameStep::Yield(Some(Ok(4)))));
    let s: FrameStep<u8, io::Error> = FrameStep::after_decode(Ok(None));
    assert!(matches!(s, FrameStep::ReadMore));
    let s: FrameStep<u8, io::Error> = FrameStep::after_decode(Err(io::Error::new(io::ErrorKind::Other, "x")));
    assert!(matches!(s, FrameStep::Yield(Some(Err(_)))));
    let s: FrameStep<u8, io::Error> = FrameStep::after_decode_eof(Ok(None), false);
    assert!(matches!(s, FrameStep::Yield(None)));
    let s: FrameStep<u8, io::Error> = FrameStep::after_decode_eof(Ok(None), true);
    match s {
        FrameStep::Yield(Some(Err(e))) => assert_eq!(e.kind(), io::ErrorKind::UnexpectedEof),
        _ => panic!("expected an error"),
    }
    let s: FrameStep<u8, io::Error> = FrameStep::after_decode_eof(Ok(Some(1)), true);
    assert!(matches!(s, FrameStep::Yield(Some(Ok(1)))));
}

#[test]
fn written_line_reads_back() {
    let mut codec = LinesCodec {};
    let mut wire = Vec::new();
    dencode::Encoder::encode(&mut codec, "abc", &mut wire).unwrap();
    wire.extend_from_slice(b"rest");
    let mut lines: FramedRead<(), LinesCodec, Vec<u8>> = FramedRead::new((), codec);
    match lines.absorb(&wire) {
        FrameStep::Yield(Some(Ok(line))) => assert_eq!(line, "abc\n"),
        _ => panic!("expected the line back"),
    }
    assert_eq!(lines.buffer(), b"rest");
}

#[test]
fn written_bytes_read_back() {
    let mut codec = BytesCodec {};
    let mut wire: Vec<u8> = Vec::new();
    dencode::Encoder::encode(&mut codec, vec![7u8, 8, 9], &mut wire).unwrap();
    let mut framed: FramedRead<(), BytesCodec, Vec<u8>> = FramedRead::new((), codec);
    match framed.absorb(&wire) {
        FrameStep::Yield(Some(Ok(item))) => assert_eq!(item, vec![7u8, 8, 9]),
        _ => panic!("expected the item back"),
    }
    assert!(framed.buffer().is_empty());
}

#[test]
fn empty_bytes_item_reads_back_as_end_of_stream() {
    let mut codec = BytesCodec {};
    let mut wire: Vec<u8> = Vec::new();
    dencode::Encoder::encode(&mut codec, Vec::new(), &mut wire).unwrap();
    assert!(wire.is_empty());
    let mut framed: FramedRead<(), BytesCodec, Vec<u8>> = FramedRead::new((), codec);
    assert!(matches!(framed.absorb(&wire), FrameStep::Yield(None)));
}

#[test]
fn partial_line_at_end_is_an_error_and_stays_buffered() {
    let mut lines: FramedRead<(), LinesCodec, Vec<u8>> = FramedRead::new((), LinesCodec {});
    assert!(matches!(lines.absorb(b"hello"), FrameStep::ReadMore));
    match lines.absorb(b"") {
        FrameStep::Yield(Some(Err(e))) => assert_eq!(e.kind(), io::ErrorKind::UnexpectedEof),
        _ => panic!("expected an error"),
    }
    assert_eq!(lines.buffer(), b"hello");
}
