# dencode

Utilities for encoding and decoding frames over byte streams, verified with Verus.

A framed writer encodes items into a write buffer and hands the buffered bytes to a
writer, front first, when the buffer reaches the send high-water mark and when the
sink is flushed. A framed reader collects the bytes read into a read buffer, from which
a decoder takes frames.

## Layout

- `src/` is the verified library:
  - `buffer.rs`: the `Buffer` byte queue, with its model as a `Seq<u8>`, and the laws
    of the bytes a sink records as taken from its buffer;
  - `encoder.rs`, `decoder.rs`: the codec traits, each with spec functions that an
    implementation uses to say what it appends or what it takes, what it returns and,
    for a decoder, what state it is left in; every decoder writes its own last attempt,
    `decode_eof`, usually as a call of `decode`;
  - `codec/`: `LinesCodec` and `BytesCodec`, with their round-trip laws;
  - `framed_write.rs`, `framed_read.rs`, `framed.rs`: the framed sink, stream and
    their union; the stream's decisions (`FrameStep`) are taken in the library, the
    reads themselves by the caller;
  - `sink.rs`: the blocking sink traits, each with spec functions that say what its
    methods do, and `sends_all`, what sending a run of items does;
  - `write.rs`: the writer a sink drains into, `drains`, the run of writes that a
    sink makes, each handed the whole buffer, and the law of a vector writer;
  - `io_support.rs`: the few calls into `std` that the proofs take on trust.
- `tests/` runs the library on concrete values.
- `app/` drives the library over `std::io::Read` and over `futures` `AsyncRead` /
  `AsyncWrite`, as blocking iterators and as `Stream` / `Sink`.
