use std::io;

use dencode::{BytesCodec, Decoder, Encoder, LinesCodec};

#[test]
fn lines_encode_appends_newline() {
    let mut codec = LinesCodec {};
    let mut dst = b"ab".to_vec();
    codec.encode("Hello", &mut dst).unwrap();
    assert_eq!(dst, b"abHello\n");
    codec.encode("", &mut dst).unwrap();
    assert_eq!(dst, b"abHello\n\n");
}

#[test]
fn lines_encode_multibyte_text() {
    let mut codec = LinesCodec {};
    let mut dst = Vec::new();
    codec.encode("héllo", &mut dst).unwrap();
    assert_eq!(dst, "héllo\n".as_bytes());
}

#[test]
fn lines_decode_takes_first_line_with_its_newline() {
    let mut codec = LinesCodec {};
    let mut src = b"hello\nworld\n".to_vec();
    assert_eq!(codec.decode(&mut src).unwrap(), Some("hello\n".to_string()));
    assert_eq!(src, b"world\n");
    assert_eq!(codec.decode(&mut src).unwrap(), Some("world\n".to_string()));
    assert!(src.is_empty());
    assert_eq!(codec.decode(&mut src).unwrap(), None);
}

#[test]
fn lines_decode_without_newline_keeps_buffer() {
    let mut codec = LinesCodec {};
    let mut src = b"partial".to_vec();
    assert_eq!(codec.decode(&mut src).unwrap(), None);
    assert_eq!(src, b"partial");
}

#[test]
fn lines_decode_invalid_utf8_is_invalid_data() {
    let mut codec = LinesCodec {};
    let mut src = vec![0xff, 0xfe, b'\n', b'o', b'k'];
    let err = codec.decode(&mut src).unwrap_err();
    assert_eq!(err.kind(), io::ErrorKind::InvalidData);
    // the bad line is gone all the same
    assert_eq!(src, b"ok");
}

#[test]
fn lines_decode_eof_is_decode() {
    let mut codec = LinesCodec {};
    let mut src = b"x\ny".to_vec();
    assert_eq!(codec.decode_eof(&mut src).unwrap(), Some("x\n".to_string()));
    assert_eq!(codec.decode_eof(&mut src).unwrap(), None);
    assert_eq!(src, b"y");
}

#[test]
fn lines_round_trip() {
    let mut codec = LinesCodec {};
    let mut buf = Vec::new();
    codec.encode("first", &mut buf).unwrap();
    codec.encode("second", &mut buf).unwrap();
    assert_eq!(codec.decode(&mut buf).unwrap(), Some("first\n".to_string()));
    assert_eq!(codec.decode(&mut buf).unwrap(), Some("second\n".to_string()));
    assert_eq!(codec.decode(&mut buf).unwrap(), None);
}

#[test]
fn bytes_encode_appends_item() {
    let mut codec = BytesCodec {};
    let mut dst = vec![1u8];
    codec.encode(vec![2u8, 3], &mut dst).unwrap();
    assert_eq!(dst, vec![1u8, 2, 3]);
}

#[test]
fn bytes_decode_takes_everything() {
    let mut codec = BytesCodec {};
    let mut src = vec![4u8, 5, 6];
    assert_eq!(codec.decode(&mut src).unwrap(), Some(vec![4u8, 5, 6]));
    assert!(src.is_empty());
    assert_eq!(codec.decode(&mut src).unwrap(), None);
}

#[test]
fn bytes_round_trip() {
    let mut codec = BytesCodec {};
    let mut buf: Vec<u8> = Vec::new();
    codec.encode(b"Hello World!".to_vec(), &mut buf).unwrap();
    assert_eq!(codec.decode(&mut buf).unwrap(), Some(b"Hello World!".to_vec()));
}
