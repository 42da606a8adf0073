use vstd::prelude::*;

use crate::io_support::{cursor_slice_flush, cursor_slice_write, cursor_vec_flush, cursor_vec_write};

verus! {

/// A byte writer that a framed sink drains its write buffer into, with the two
/// methods of `std::io::Write` that the sink uses.
pub trait BlockingWrite: Sized {
    /// Whether `write`, handed `buf`, may report `r` and leave the writer as `after`.
    /// A writer that says nothing more allows any outcome.
    open spec fn writes(&self, buf: Seq<u8>, r: Result<usize, std::io::Error>, after: Self) -> bool {
        true
    }

    /// Whether `flush` may report `r` and leave the writer as `after`.
    /// A writer that says nothing more allows any outcome.
    open spec fn flushed(&self, r: Result<(), std::io::Error>, after: Self) -> bool {
        true
    }

    /// Writes a prefix of `buf` and reports how many bytes it took.
    fn write(&mut self, buf: &[u8]) -> (r: Result<usize, std::io::Error>)
        ensures
            r matches Ok(n) ==> n <= buf@.len(),
            (*old(self)).writes(buf@, r, *final(self)),
    ;

    /// Pushes out whatever the writer holds back.
    fn flush(&mut self) -> (r: Result<(), std::io::Error>)
        ensures
            (*old(self)).flushed(r, *final(self)),
    ;
}

/// A vector takes every byte it is given.
impl BlockingWrite for Vec<u8> {
    /// Every byte is taken, at the back.
    open spec fn writes(&self, buf: Seq<u8>, r: Result<usize, std::io::Error>, after: Self) -> bool {
        r matches Ok(n) && n == buf.len() && after@ == self@ + buf
    }

    /// Nothing is held back, so flushing succeeds and changes nothing.
    open spec fn flushed(&self, r: Result<(), std::io::Error>, after: Self) -> bool {
        r is Ok && after == *self
    }

    fn write(&mut self, buf: &[u8]) -> (r: Result<usize, std::io::Error>)
        ensures
            r == Ok::<usize, std::io::Error>(buf@.len() as usize),
            final(self)@ == old(self)@ + buf@,
    {
        self.extend_from_slice(buf);
        proof {
            assert(final(self)@ =~= old(self)@ + buf@);
        }
        Ok(buf.len())
    }

    fn flush(&mut self) -> (r: Result<(), std::io::Error>)
        ensures
            r is Ok,
            *final(self) == *old(self),
    {
        Ok(())
    }
}

impl<W: BlockingWrite> BlockingWrite for &mut W {
    /// As the writer behind the reference writes.
    open spec fn writes(&self, buf: Seq<u8>, r: Result<usize, std::io::Error>, after: Self) -> bool {
        (**self).writes(buf, r, *after)
    }

    /// As the writer behind the reference flushes.
    open spec fn flushed(&self, r: Result<(), std::io::Error>, after: Self) -> bool {
        (**self).flushed(r, *after)
    }

    fn write(&mut self, buf: &[u8]) -> (r: Result<usize, std::io::Error>) {
        (**self).write(buf)
    }

    fn flush(&mut self) -> Result<(), std::io::Error> {
        (**self).flush()
    }
}

impl BlockingWrite for std::io::Cursor<Vec<u8>> {
    /// Flushing an in-memory cursor succeeds and changes nothing.
    open spec fn flushed(&self, r: Result<(), std::io::Error>, after: Self) -> bool {
        r is Ok && after == *self
    }

    fn write(&mut self, buf: &[u8]) -> (r: Result<usize, std::io::Error>) {
        cursor_vec_write(self, buf)
    }

    fn flush(&mut self) -> Result<(), std::io::Error> {
        cursor_vec_flush(self)
    }
}

impl<'a> BlockingWrite for std::io::Cursor<&'a mut [u8]> {
    /// Flushing an in-memory cursor succeeds and changes nothing.
    open spec fn flushed(&self, r: Result<(), std::io::Error>, after: Self) -> bool {
        r is Ok && after == *self
    }

    fn write(&mut self, buf: &[u8]) -> (r: Result<usize, std::io::Error>) {
        cursor_slice_write(self, buf)
    }

    fn flush(&mut self) -> Result<(), std::io::Error> {
        cursor_slice_flush(self)
    }
}

} // verus!

verus! {

/// The writer went from `io0` to `io1`, and its buffer from `buf0` to `buf1`, by a run
/// of writes, each made while the buffer held at least `floor` bytes: each write is
/// handed the whole buffer, takes `n > 0` bytes from its front, and those bytes leave
/// the buffer. A run of no write leaves both as they were.
pub open spec fn drains<W: BlockingWrite>(
    io0: W,
    buf0: Seq<u8>,
    floor: int,
    io1: W,
    buf1: Seq<u8>,
) -> bool
    decreases buf0.len(),
{
    ||| io1 == io0 && buf1 == buf0
    ||| exists|n: usize, io_mid: W|
        #![trigger io0.writes(buf0, Ok::<usize, std::io::Error>(n), io_mid)]
        floor <= buf0.len() && 0 < n <= buf0.len() && io0.writes(
            buf0,
            Ok::<usize, std::io::Error>(n),
            io_mid,
        ) && drains(io_mid, buf0.skip(n as int), floor, io1, buf1)
}

/// `r` is what a framed sink reports for `wrote`, a write that failed or took nothing:
/// the writer's error, converted through `From`, or, for a write that took nothing, an
/// error of the sink's own.
pub open spec fn write_failure<E: From<std::io::Error>>(
    wrote: Result<usize, std::io::Error>,
    r: Result<(), E>,
) -> bool {
    match wrote {
        Err(e) => r matches Err(x) && call_ensures(<E as From<std::io::Error>>::from, (e,), x),
        Ok(n) => n == 0 && r is Err,
    }
}

/// `r` is what a framed sink reports for `flushed`, the outcome of flushing its writer:
/// success, or the writer's error converted through `From`.
pub open spec fn flush_result<E: From<std::io::Error>>(
    flushed: Result<(), std::io::Error>,
    r: Result<(), E>,
) -> bool {
    match flushed {
        Ok(()) => r is Ok,
        Err(e) => r matches Err(x) && call_ensures(<E as From<std::io::Error>>::from, (e,), x),
    }
}

/// The writer, at `io0` and handed the whole of `buf`, failed or took nothing and was
/// left at `io1`, and `r` is what a framed sink reports for it.
pub open spec fn stalls<W: BlockingWrite, E: From<std::io::Error>>(
    io0: W,
    buf: Seq<u8>,
    io1: W,
    r: Result<(), E>,
) -> bool {
    exists|wrote: Result<usize, std::io::Error>|
        #[trigger] io0.writes(buf, wrote, io1) && write_failure(wrote, r)
}

/// A run of writes followed by one more write of the same kind is a run of writes.
pub proof fn lemma_drains_extend<W: BlockingWrite>(
    io0: W,
    buf0: Seq<u8>,
    floor: int,
    io1: W,
    buf1: Seq<u8>,
    n: usize,
    io2: W,
)
    requires
        drains(io0, buf0, floor, io1, buf1),
        floor <= buf1.len(),
        0 < n <= buf1.len(),
        io1.writes(buf1, Ok::<usize, std::io::Error>(n), io2),
    ensures
        drains(io0, buf0, floor, io2, buf1.skip(n as int)),
    decreases buf0.len(),
{
    if io1 == io0 && buf1 == buf0 {
        assert(drains(io2, buf1.skip(n as int), floor, io2, buf1.skip(n as int)));
    } else {
        let (m, io_mid) = choose|m: usize, io_mid: W|
            #![trigger io0.writes(buf0, Ok::<usize, std::io::Error>(m), io_mid)]
            floor <= buf0.len() && 0 < m <= buf0.len() && io0.writes(
                buf0,
                Ok::<usize, std::io::Error>(m),
                io_mid,
            ) && drains(io_mid, buf0.skip(m as int), floor, io1, buf1);
        lemma_drains_extend(io_mid, buf0.skip(m as int), floor, io1, buf1, n, io2);
    }
}

/// A vector keeps every byte it is handed: over a run of writes, the vector's bytes
/// followed by what stays buffered are the bytes it had followed by what was buffered.
pub proof fn law_vec_drains(io0: Vec<u8>, buf0: Seq<u8>, floor: int, io1: Vec<u8>, buf1: Seq<u8>)
    requires
        drains(io0, buf0, floor, io1, buf1),
    ensures
        io1@ + buf1 == io0@ + buf0,
    decreases buf0.len(),
{
    if io1 == io0 && buf1 == buf0 {
    } else {
        let (m, io_mid) = choose|m: usize, io_mid: Vec<u8>|
            #![trigger io0.writes(buf0, Ok::<usize, std::io::Error>(m), io_mid)]
            floor <= buf0.len() && 0 < m <= buf0.len() && io0.writes(
                buf0,
                Ok::<usize, std::io::Error>(m),
                io_mid,
            ) && drains(io_mid, buf0.skip(m as int), floor, io1, buf1);
        law_vec_drains(io_mid, buf0.skip(m as int), floor, io1, buf1);
        assert(<Vec<u8> as BlockingWrite>::writes(&io0, buf0, Ok::<usize, std::io::Error>(m), io_mid));
        assert(buf0.skip(m as int) =~= Seq::<u8>::empty());
        assert(io_mid@ + buf0.skip(m as int) =~= io0@ + buf0);
    }
}

} // verus!
