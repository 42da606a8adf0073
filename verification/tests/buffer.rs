use dencode::Buffer;

#[test]
fn vec_buffer_operations() {
    let mut buf = <Vec<u8> as Buffer>::with_capacity(4);
    assert!(Buffer::is_empty(&buf));
    assert_eq!(Buffer::len(&buf), 0);
    Buffer::extend_from_slice(&mut buf, b"abcdef");
    assert_eq!(Buffer::len(&buf), 6);
    assert!(!Buffer::is_empty(&buf));
    Buffer::advance(&mut buf, 2);
    assert_eq!(Buffer::as_slice(&buf), b"cdef");
    Buffer::advance(&mut buf, 0);
    assert_eq!(Buffer::as_slice(&buf), b"cdef");
    Buffer::advance(&mut buf, 4);
    assert!(Buffer::is_empty(&buf));
}
