//! Decoder for the Hancock waveform-LIDAR binary format.
//!
//! A file is a body of tightly packed records followed by a fixed 28-byte
//! trailer that gives the origin offset of the local frame and the number
//! of records. Floating-point fields are carried as their IEEE-754 bit
//! patterns; the byte order is chosen per session.
pub mod batch;
pub mod bytes;
pub mod fill;
pub mod format;
pub mod laws;
pub mod reader;
pub mod record;

pub use batch::{
    decode_batch, progress_position, summarize_file, summarize_reader, tally, BatchReport,
    FileSummary, PROGRESS_STEP,
};
pub use bytes::{ByteCursor, ByteOrder, CursorError};
pub use fill::{ExactFill, FillStep};
pub use format::{DatasetMetadata, DecodeError, TRAILER_LEN};
pub use laws::{
    lemma_extra_body_bytes, lemma_file_hit_totals, lemma_hit_totals, lemma_zero_records,
};
pub use reader::{decode_file, read_metadata, HancockReader};
pub use record::{read_row, HancockDataRow};
