use vstd::prelude::*;

verus! {

/// `std::io::Error`, carried through as an opaque value.
#[verifier::external_type_specification]
#[verifier::external_body]
pub struct ExIoError(std::io::Error);

/// `std::io::ErrorKind`, whose variants the library names.
#[verifier::external_type_specification]
pub struct ExIoErrorKind(std::io::ErrorKind);

/// `std::io::Cursor`, carried through as an opaque value.
#[verifier::external_type_specification]
#[verifier::external_body]
#[verifier::reject_recursive_types(T)]
pub struct ExCursor<T>(std::io::Cursor<T>);

/// `std::string::FromUtf8Error`, carried through as an opaque value.
#[verifier::external_type_specification]
#[verifier::external_body]
pub struct ExFromUtf8Error(std::string::FromUtf8Error);

/// Calls `std::io::Error::new(kind, message)`.
/// Nothing is claimed of the result: the error is an opaque value to the proofs.
#[verifier::external_body]
pub(crate) fn new_io_error(kind: std::io::ErrorKind, message: &str) -> std::io::Error {
    std::io::Error::new(kind, message)
}

/// Calls `std::io::Error::new(kind, error)` on a failed UTF-8 conversion.
/// Nothing is claimed of the result: the error is an opaque value to the proofs.
#[verifier::external_body]
pub(crate) fn new_utf8_io_error(
    kind: std::io::ErrorKind,
    error: std::string::FromUtf8Error,
) -> std::io::Error {
    std::io::Error::new(kind, error)
}

/// Calls `String::from_utf8(bytes)`.
/// Claims what its documentation states: the conversion succeeds exactly on valid
/// UTF-8, and then the string holds the characters that the bytes encode.
#[verifier::external_body]
pub(crate) fn string_from_utf8(bytes: Vec<u8>) -> (r: Result<String, std::string::FromUtf8Error>)
    ensures
        r is Ok <==> vstd::utf8::valid_utf8(bytes@),
        r matches Ok(s) ==> s@ == vstd::utf8::decode_utf8(bytes@),
{
    String::from_utf8(bytes)
}

/// Calls `<Cursor<Vec<u8>> as std::io::Write>::write(io, buf)`.
/// Claims only what the documentation of `Write::write` requires of every writer:
/// a successful call reports at most `buf.len()` bytes as written. Which bytes the
/// cursor kept, and what became of `io`, are left unsaid.
#[verifier::external_body]
pub(crate) fn cursor_vec_write(
    io: &mut std::io::Cursor<Vec<u8>>,
    buf: &[u8],
) -> (r: Result<usize, std::io::Error>)
    ensures
        r matches Ok(n) ==> n <= buf@.len(),
{
    std::io::Write::write(io, buf)
}

/// Calls `<Cursor<Vec<u8>> as std::io::Write>::flush(io)`.
/// Claims that it succeeds and leaves the cursor as it was: `Write::flush` is documented
/// to make intermediately buffered contents reach their destination and to fail only
/// when not all bytes could be written, and a cursor writes straight into the memory it
/// wraps, holding nothing back.
#[verifier::external_body]
pub(crate) fn cursor_vec_flush(io: &mut std::io::Cursor<Vec<u8>>) -> (r: Result<
    (),
    std::io::Error,
>)
    ensures
        r is Ok,
        *final(io) == *old(io),
{
    std::io::Write::flush(io)
}

/// Calls `<Cursor<&mut [u8]> as std::io::Write>::write(io, buf)`.
/// Claims only what the documentation of `Write::write` requires of every writer:
/// a successful call reports at most `buf.len()` bytes as written. Which bytes the
/// cursor kept, and what became of `io`, are left unsaid.
#[verifier::external_body]
pub(crate) fn cursor_slice_write<'a>(
    io: &mut std::io::Cursor<&'a mut [u8]>,
    buf: &[u8],
) -> (r: Result<usize, std::io::Error>)
    ensures
        r matches Ok(n) ==> n <= buf@.len(),
{
    std::io::Write::write(io, buf)
}

/// Calls `<Cursor<&mut [u8]> as std::io::Write>::flush(io)`.
/// Claims that it succeeds and leaves the cursor as it was: `Write::flush` is documented
/// to make intermediately buffered contents reach their destination and to fail only
/// when not all bytes could be written, and a cursor writes straight into the memory it
/// wraps, holding nothing back.
#[verifier::external_body]
pub(crate) fn cursor_slice_flush<'a>(io: &mut std::io::Cursor<&'a mut [u8]>) -> (r: Result<
    (),
    std::io::Error,
>)
    ensures
        r is Ok,
        *final(io) == *old(io),
{
    std::io::Write::flush(io)
}

} // verus!
