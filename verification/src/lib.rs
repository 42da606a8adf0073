mod buffer;
pub use buffer::{
    appended, handed_over, law_hand_over_composes, law_hand_over_keeps_bytes, Buffer,
};

mod decoder;
pub use decoder::Decoder;

mod encoder;
pub use encoder::Encoder;

mod fuse;
mod io_support;

mod sink;
pub use sink::{sends_all, IterSink, IterSinkExt};

mod write;
pub use write::{
    drains, flush_result, law_vec_drains, lemma_drains_extend, stalls, write_failure, BlockingWrite,
};

mod framed_write;
pub use framed_write::{
    law_flush_fails_only_by_writes, law_send_delivers, law_slice_cursor_flush, law_vec_cursor_flush,
    law_vec_flush_delivers, law_vec_send_delivers, FramedWrite, DEFAULT_SEND_HIGH_WATER_MARK,
};

mod codec;
pub use codec::{
    first_newline_at, law_bytes_read_back, law_bytes_round_trip, law_line_read_back,
    law_line_round_trip, line_encoding, BytesCodec, LinesCodec, NEWLINE,
};

mod framed_read;
pub use framed_read::{
    absorbs, decodes_buffered, law_stream_keeps_bytes, step_after, step_at_end, taken_over,
    takes_front, FrameStep, FramedRead, INITIAL_CAPACITY,
};

mod framed;
pub use framed::Framed;
