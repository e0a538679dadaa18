use vstd::prelude::*;
use crate::bytes::{word32, word64, ByteOrder};
use crate::record::HancockDataRow;

verus! {

/// Size of the trailer that ends every file.
pub const TRAILER_LEN: usize = 28;

/// Errors of a decoding session.
#[derive(Clone, Copy, Debug, PartialEq, Eq, Structural)]
pub enum DecodeError {
    /// The source is shorter than the trailer.
    TruncatedFile,
    /// The body ends before the declared number of records is complete.
    CorruptFile,
}

/// What the trailer of a file declares. The origin offsets are the bit
/// patterns of 64-bit IEEE-754 numbers.
#[derive(Clone, Copy, Debug, PartialEq, Eq, Structural)]
pub struct DatasetMetadata {
    pub xoff_bits: u64,
    pub yoff_bits: u64,
    pub zoff_bits: u64,
    pub n_beams: u32,
}

/// The trailer of `s`: three eight-byte offsets and a four-byte count in its
/// last 28 bytes.
pub open spec fn trailer_of(s: Seq<u8>, order: ByteOrder) -> DatasetMetadata {
    let t = s.len() - 28;
    DatasetMetadata {
        xoff_bits: word64(s, t, order),
        yoff_bits: word64(s, t + 8, order),
        zoff_bits: word64(s, t + 16, order),
        n_beams: word32(s, t + 24, order),
    }
}

/// Number of bytes of the record that starts at `p`.
pub open spec fn record_len(s: Seq<u8>, p: int) -> int {
    25 + 8 * s[p + 24]
}

/// The record that starts at `p` lies wholly before `limit`.
pub open spec fn record_fits(s: Seq<u8>, p: int, limit: int) -> bool {
    &&& 0 <= p
    &&& p + 25 <= limit
    &&& p + record_len(s, p) <= limit
    &&& limit <= s.len()
}

/// `row` holds the fields of the record at `p`: its header, then one range
/// and one reflectance per hit, interleaved.
pub open spec fn row_encoded_at(row: HancockDataRow, s: Seq<u8>, p: int, order: ByteOrder) -> bool {
    &&& row.zen_bits == word32(s, p, order)
    &&& row.az_bits == word32(s, p + 4, order)
    &&& row.x_bits == word32(s, p + 8, order)
    &&& row.y_bits == word32(s, p + 12, order)
    &&& row.z_bits == word32(s, p + 16, order)
    &&& row.shot_n == word32(s, p + 20, order)
    &&& row.n_hits == s[p + 24]
    &&& row.r@.len() == row.n_hits
    &&& row.refl@.len() == row.n_hits
    &&& forall|i: int|
        0 <= i < row.n_hits ==> #[trigger] row.r@[i] == word32(s, p + 25 + 8 * i, order)
            && row.refl@[i] == word32(s, p + 29 + 8 * i, order)
}

/// Where record `k` of the body starts, each record following the previous
/// one without padding.
pub open spec fn record_offset(s: Seq<u8>, k: nat) -> int
    decreases k,
{
    if k == 0 {
        0
    } else {
        let p = record_offset(s, (k - 1) as nat);
        p + record_len(s, p)
    }
}

/// The first `n` records of the body lie wholly before `limit`.
pub open spec fn records_fit(s: Seq<u8>, limit: int, n: nat) -> bool {
    forall|k: nat| k < n ==> record_fits(s, #[trigger] record_offset(s, k), limit)
}

/// Why a file cannot be decoded, if it cannot: too short for a trailer, or a
/// body too short for the records that the trailer declares.
pub open spec fn file_error(s: Seq<u8>, order: ByteOrder) -> Option<DecodeError> {
    if s.len() < 28 {
        Some(DecodeError::TruncatedFile)
    } else if !records_fit(s, s.len() - 28, trailer_of(s, order).n_beams as nat) {
        Some(DecodeError::CorruptFile)
    } else {
        None
    }
}

/// `rows` are the records of the file `s`, in storage order.
pub open spec fn rows_of_file(rows: Seq<HancockDataRow>, s: Seq<u8>, order: ByteOrder) -> bool {
    &&& rows.len() == trailer_of(s, order).n_beams
    &&& forall|k: int|
        0 <= k < rows.len() ==> row_encoded_at(
            #[trigger] rows[k],
            s,
            record_offset(s, k as nat),
            order,
        )
}

} // verus!
