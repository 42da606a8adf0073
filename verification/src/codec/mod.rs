mod bytes;
pub use bytes::{law_bytes_read_back, law_bytes_round_trip, BytesCodec};

mod lines;
pub use lines::{
    first_newline_at, law_line_read_back, law_line_round_trip, line_encoding, LinesCodec, NEWLINE,
};
