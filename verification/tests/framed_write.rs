use std::io;

use dencode::{BlockingWrite, BytesCodec, FramedWrite, IterSink, IterSinkExt, LinesCodec};

// An iterator which outputs a single zero byte up to limit times
struct ZeroBytes {
    count: usize,
    limit: usize,
}

impl Iterator for ZeroBytes {
    type Item = Vec<u8>;
    fn next(&mut self) -> Option<Self::Item> {
        if self.count >= self.limit {
            None
        } else {
            self.count += 1;
            Some(vec![0u8])
        }
    }
}

// A writer which is always ready and just consumes the data
struct WriteNull {
    // number of write calls
    num_poll_write: usize,

    // size of the last write
    last_write_size: usize,
}

impl BlockingWrite for WriteNull {
    fn write(&mut self, buf: &[u8]) -> io::Result<usize> {
        self.num_poll_write += 1;
        self.last_write_size = buf.len();
        Ok(buf.len())
    }

    fn flush(&mut self) -> io::Result<()> {
        Ok(())
    }
}

// A writer that takes nothing
struct WriteNothing;

impl BlockingWrite for WriteNothing {
    fn write(&mut self, _buf: &[u8]) -> io::Result<usize> {
        Ok(0)
    }

    fn flush(&mut self) -> io::Result<()> {
        Ok(())
    }
}

// A writer that takes at most `chunk` bytes per write and records them
struct WriteChunks {
    chunk: usize,
    data: Vec<u8>,
    writes: usize,
    flushes: usize,
}

impl BlockingWrite for WriteChunks {
    fn write(&mut self, buf: &[u8]) -> io::Result<usize> {
        let n = buf.len().min(self.chunk);
        self.data.extend_from_slice(&buf[..n]);
        self.writes += 1;
        Ok(n)
    }

    fn flush(&mut self) -> io::Result<()> {
        self.flushes += 1;
        Ok(())
    }
}

// A writer that always fails
struct WriteBroken;

impl BlockingWrite for WriteBroken {
    fn write(&mut self, _buf: &[u8]) -> io::Result<usize> {
        Err(io::Error::new(io::ErrorKind::BrokenPipe, "broken"))
    }

    fn flush(&mut self) -> io::Result<()> {
        Err(io::Error::new(io::ErrorKind::BrokenPipe, "broken"))
    }
}

#[test]
fn blocking_line_write() {
    let curs = std::io::Cursor::new(vec![0u8; 16]);
    let mut framer = FramedWrite::new(curs, LinesCodec {});
    framer.send("Hello").unwrap();
    framer.send("World").unwrap();
    let (curs, _) = framer.release();
    assert_eq!(&curs.get_ref()[0..12], b"Hello\nWorld\n");
    assert_eq!(curs.position(), 12);
}

#[test]
fn blocking_write_to_eof() {
    let mut buf = [0u8; 16];
    let curs = std::io::Cursor::new(&mut buf[..]);
    let mut framer = FramedWrite::new(curs, LinesCodec {});
    let _err = framer.send("This will fill up the buffer\n").unwrap_err();
    let (curs, _) = framer.release();
    assert_eq!(curs.position(), 16);
    assert_eq!(&curs.get_ref()[0..16], b"This will fill u");
}

#[test]
fn blocking_send_high_water_mark() {
    // iterator will output 999 bytes, 1 at at a time
    let it = ZeroBytes {
        count: 0,
        limit: 999,
    }
    .map(Ok);

    // sink will eat whatever it receives
    let io = WriteNull {
        num_poll_write: 0,
        last_write_size: 0,
    };

    // expect two sends
    let mut framer: FramedWrite<_, _, Vec<u8>> = FramedWrite::new(io, BytesCodec {});
    framer.set_send_high_water_mark(500);
    IterSinkExt::send_all(&mut framer, it).unwrap();
    let (io, _) = framer.release();
    assert_eq!(io.num_poll_write, 2);
    assert_eq!(io.last_write_size, 499);
}

#[test]
fn write_to_eof_reports_unexpected_eof() {
    let mut buf = [0u8; 4];
    let curs = std::io::Cursor::new(&mut buf[..]);
    let mut framer = FramedWrite::new(curs, LinesCodec {});
    let err = framer.send("abcdef").unwrap_err();
    assert_eq!(err.kind(), io::ErrorKind::UnexpectedEof);
    // the writer took the first four bytes; the rest stays buffered
    assert_eq!(framer.write_buffer(), b"ef\n");
}

#[test]
fn writer_taking_nothing_is_an_error() {
    let mut framer: FramedWrite<_, _, Vec<u8>> = FramedWrite::new(WriteNothing, BytesCodec {});
    framer.start_send(vec![1, 2, 3]).unwrap();
    let err = framer.flush().unwrap_err();
    assert_eq!(err.kind(), io::ErrorKind::UnexpectedEof);
    assert_eq!(framer.write_buffer(), &[1, 2, 3]);
}

#[test]
fn writer_error_is_passed_on() {
    let mut framer: FramedWrite<_, _, Vec<u8>> = FramedWrite::new(WriteBroken, BytesCodec {});
    framer.start_send(vec![7]).unwrap();
    let err = framer.flush().unwrap_err();
    assert_eq!(err.kind(), io::ErrorKind::BrokenPipe);
    assert_eq!(framer.write_buffer(), &[7]);
}

#[test]
fn flush_of_empty_buffer_only_flushes_writer() {
    let io = WriteChunks { chunk: 2, data: vec![], writes: 0, flushes: 0 };
    let mut framer: FramedWrite<_, _, Vec<u8>> = FramedWrite::new(io, BytesCodec {});
    IterSink::<Vec<u8>>::flush(&mut framer).unwrap();
    let io = framer.into_inner();
    assert_eq!(io.writes, 0);
    assert_eq!(io.flushes, 1);
}

#[test]
fn flush_writes_buffer_in_order_across_partial_writes() {
    let io = WriteChunks { chunk: 3, data: vec![], writes: 0, flushes: 0 };
    let mut framer = FramedWrite::new(io, LinesCodec {});
    framer.start_send("hello").unwrap();
    framer.start_send("you").unwrap();
    assert_eq!(framer.write_buffer(), b"hello\nyou\n");
    IterSink::<&str>::flush(&mut framer).unwrap();
    assert_eq!(framer.write_buffer(), b"");
    let io = framer.into_inner();
    assert_eq!(io.data, b"hello\nyou\n");
    assert_eq!(io.writes, 4);
    assert_eq!(io.flushes, 1);
}

#[test]
fn default_high_water_mark_is_2_pow_17() {
    let framer: FramedWrite<_, _, Vec<u8>> = FramedWrite::new(Vec::<u8>::new(), BytesCodec {});
    assert_eq!(framer.send_high_water_mark(), 131072);
    assert_eq!(framer.send_high_water_mark(), 1 << 17);
}

#[test]
fn set_high_water_mark_is_read_back() {
    let mut framer: FramedWrite<_, _, Vec<u8>> = FramedWrite::new(Vec::<u8>::new(), BytesCodec {});
    framer.set_send_high_water_mark(7);
    assert_eq!(framer.send_high_water_mark(), 7);
    framer.set_send_high_water_mark(0);
    assert_eq!(framer.send_high_water_mark(), 0);
}

#[test]
fn ready_below_high_water_mark_writes_nothing() {
    let io = WriteChunks { chunk: 100, data: vec![], writes: 0, flushes: 0 };
    let mut framer: FramedWrite<_, _, Vec<u8>> = FramedWrite::new(io, BytesCodec {});
    framer.set_send_high_water_mark(4);
    framer.start_send(vec![1, 2, 3]).unwrap();
    IterSink::<Vec<u8>>::ready(&mut framer).unwrap();
    assert_eq!(framer.write_buffer(), &[1, 2, 3]);
    assert_eq!(framer.writes, 0);
}

#[test]
fn ready_at_high_water_mark_drains_below_it() {
    let io = WriteChunks { chunk: 2, data: vec![], writes: 0, flushes: 0 };
    let mut framer: FramedWrite<_, _, Vec<u8>> = FramedWrite::new(io, BytesCodec {});
    framer.set_send_high_water_mark(4);
    framer.start_send(vec![1, 2, 3, 4, 5]).unwrap();
    IterSink::<Vec<u8>>::ready(&mut framer).unwrap();
    // 5 bytes -> 3 bytes: one write of two bytes brings it under the mark
    assert_eq!(framer.write_buffer(), &[3, 4, 5]);
    let io = framer.into_inner();
    assert_eq!(io.data, vec![1, 2]);
    assert_eq!(io.writes, 1);
    assert_eq!(io.flushes, 0);
}

#[test]
fn send_writes_and_flushes_into_vec() {
    let mut framer = FramedWrite::new(Vec::new(), LinesCodec {});
    framer.send("hello").unwrap();
    let buf = framer.into_inner();
    assert_eq!(&buf[..], "hello\n".as_bytes());
}

#[test]
fn send_through_mut_reference_writer() {
    let mut buf = Vec::new();
    let mut framer = FramedWrite::new(&mut buf, LinesCodec {});
    framer.send("hello").unwrap();
    drop(framer);
    assert_eq!(&buf[..], "hello\n".as_bytes());
}

#[test]
fn release_gives_back_writer_and_encoder() {
    let framer: FramedWrite<_, _, Vec<u8>> = FramedWrite::new(vec![9u8], BytesCodec {});
    let (io, _codec) = framer.release();
    assert_eq!(io, vec![9u8]);
}

#[test]
fn deref_reaches_the_writer() {
    let mut framer: FramedWrite<_, _, Vec<u8>> = FramedWrite::new(vec![1u8], BytesCodec {});
    assert_eq!(framer.len(), 1);
    framer.push(2);
    assert_eq!(*framer, vec![1u8, 2]);
    let _codec: &BytesCodec = framer.encoder();
    let _codec: &mut BytesCodec = framer.encoder_mut();
}

#[test]
fn take_written_reports_progress() {
    let mut framer: FramedWrite<_, _, Vec<u8>> = FramedWrite::new(Vec::<u8>::new(), BytesCodec {});
    framer.encode_item(vec![1, 2, 3]).unwrap();
    let err = framer.take_written(0).unwrap_err();
    assert_eq!(err.kind(), io::ErrorKind::UnexpectedEof);
    assert_eq!(framer.write_buffer(), &[1, 2, 3]);
    framer.take_written(2).unwrap();
    assert_eq!(framer.write_buffer(), &[3]);
    framer.set_send_high_water_mark(1);
    assert!(framer.over_high_water_mark());
    framer.set_send_high_water_mark(2);
    assert!(!framer.over_high_water_mark());
}

#[test]
fn vec_writer_receives_buffered_bytes_then_the_item() {
    let mut framer = FramedWrite::new(b"old".to_vec(), LinesCodec {});
    framer.encode_item("queued").unwrap();
    framer.send("next").unwrap();
    assert!(framer.write_buffer().is_empty());
    assert_eq!(framer.into_inner(), b"oldqueued\nnext\n".to_vec());
}

#[test]
fn vec_writer_flush_takes_everything() {
    let mut framer = FramedWrite::new(Vec::new(), LinesCodec {});
    framer.encode_item("a").unwrap();
    framer.encode_item("b").unwrap();
    IterSink::<&str>::flush(&mut framer).unwrap();
    assert!(framer.write_buffer().is_empty());
    assert_eq!(framer.into_inner(), b"a\nb\n".to_vec());
}
