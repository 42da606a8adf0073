use std::io;

use dencode::{BytesCodec, Decoder, FrameStep, Framed, IterSink, IterSinkExt, LinesCodec};

fn next_frame<T: io::Read, C: Decoder<Vec<u8>>>(
    framed: &mut Framed<T, C, Vec<u8>>,
) -> Option<Result<C::Item, C::Error>> {
    if let FrameStep::Yield(out) = framed.decode_buffered() {
        return out;
    }
    let mut buf = vec![0u8; 8192];
    loop {
        let n = match io::Read::read(&mut **framed, &mut buf) {
            Ok(n) => n,
            Err(e) => return Some(Err(e.into())),
        };
        if let FrameStep::Yield(out) = framed.absorb_blocking(&buf[..n]) {
            return out;
        }
    }
}

#[test]
fn bytes_codec() {
    let buf = [0u8; 32];
    let expected = buf;
    let cur = std::io::Cursor::new(buf.to_vec());
    let mut framed = Framed::new(cur, BytesCodec {});

    let read = next_frame(&mut framed).unwrap().unwrap();
    assert_eq!(&read[..], &expected[..]);

    assert!(next_frame(&mut framed).is_none());
}

#[test]
fn send_then_release() {
    let cur = std::io::Cursor::new(vec![0u8; 6]);
    let mut framed = Framed::new(cur, LinesCodec {});
    framed.send("hello").unwrap();
    let (cur, _) = framed.release();
    assert_eq!(cur.get_ref(), b"hello\n");
}

#[test]
fn send_bytes_then_release() {
    let cur = std::io::Cursor::new(vec![0u8; 12]);
    let mut framed: Framed<_, _, Vec<u8>> = Framed::new(cur, BytesCodec {});
    framed.send(b"Hello world!".to_vec()).unwrap();
    let cur = framed.into_inner();
    assert_eq!(cur.get_ref(), b"Hello world!");
}

#[test]
fn reading_leaves_the_write_buffer_alone() {
    let mut framed: Framed<Vec<u8>, LinesCodec, Vec<u8>> = Framed::new(Vec::new(), LinesCodec {});
    framed.start_send("out").unwrap();
    match framed.absorb(b"in\n") {
        FrameStep::Yield(Some(Ok(line))) => assert_eq!(line, "in\n"),
        _ => panic!("expected a line"),
    }
    assert_eq!(framed.write_buffer(), b"out\n");
    assert!(framed.read_buffer().is_empty());
    IterSink::<&str>::flush(&mut framed).unwrap();
    assert_eq!(*framed, b"out\n".to_vec());
}

#[test]
fn framed_accessors() {
    let mut framed: Framed<Vec<u8>, BytesCodec, Vec<u8>> = Framed::new(Vec::new(), BytesCodec {});
    let _c: &BytesCodec = framed.codec();
    let _c: &mut BytesCodec = framed.codec_mut();
    framed.encode_item(vec![1, 2]).unwrap();
    assert!(!framed.over_high_water_mark());
    framed.take_written(1).unwrap();
    assert_eq!(framed.write_buffer(), &[2]);
    framed.push(9);
    assert_eq!(*framed, vec![9u8]);
}
