use vstd::prelude::*;
use crate::bytes::{word32, ByteCursor, ByteOrder, CursorError};
use crate::format::{record_fits, record_len, row_encoded_at};

verus! {

/// One decoded shot. The angles, coordinates, ranges and reflectances are
/// the bit patterns of 32-bit IEEE-754 numbers.
#[derive(Clone, Debug)]
pub struct HancockDataRow {
    pub zen_bits: u32,
    pub az_bits: u32,
    pub x_bits: u32,
    pub y_bits: u32,
    pub z_bits: u32,
    pub shot_n: u32,
    pub n_hits: u8,
    pub r: Vec<u32>,
    pub refl: Vec<u32>,
}

impl HancockDataRow {
    /// Both sample sequences hold one entry per hit.
    pub open spec fn wf(&self) -> bool {
        self.r@.len() == self.n_hits && self.refl@.len() == self.n_hits
    }
}

/// Decodes the record at the cursor's position and moves past it. Fails
/// with `Exhausted` exactly where the record runs past the read limit; no
/// partial record is returned then.
pub fn read_row(cursor: &mut ByteCursor, order: ByteOrder) -> (r: Result<
    HancockDataRow,
    CursorError,
>)
    requires
        old(cursor).wf(),
    ensures
        final(cursor).wf(),
        final(cursor).data() == old(cursor).data(),
        final(cursor).limit() == old(cursor).limit(),
        r is Ok <==> record_fits(old(cursor).data(), old(cursor).pos(), old(cursor).limit()),
        match r {
            Ok(row) => row_encoded_at(row, old(cursor).data(), old(cursor).pos(), order)
                && row.wf() && final(cursor).pos() == old(cursor).pos() + record_len(
                old(cursor).data(),
                old(cursor).pos(),
            ),
            Err(e) => e == CursorError::Exhausted,
        },
{
    let ghost s = cursor.data();
    let ghost p = cursor.pos();
    let zen_bits = match cursor.read_u32(order) {
        Ok(w) => w,
        Err(e) => return Err(e),
    };
    let az_bits = match cursor.read_u32(order) {
        Ok(w) => w,
        Err(e) => return Err(e),
    };
    let x_bits = match cursor.read_u32(order) {
        Ok(w) => w,
        Err(e) => return Err(e),
    };
    let y_bits = match cursor.read_u32(order) {
        Ok(w) => w,
        Err(e) => return Err(e),
    };
    let z_bits = match cursor.read_u32(order) {
        Ok(w) => w,
        Err(e) => return Err(e),
    };
    let shot_n = match cursor.read_u32(order) {
        Ok(w) => w,
        Err(e) => return Err(e),
    };
    let n_hits = match cursor.read_u8() {
        Ok(b) => b,
        Err(e) => return Err(e),
    };
    let mut r: Vec<u32> = Vec::new();
    let mut refl: Vec<u32> = Vec::new();
    let mut i: u8 = 0;
    while i < n_hits
        invariant
            cursor.wf(),
            cursor.data() == s,
            s == old(cursor).data(),
            p == old(cursor).pos(),
            cursor.limit() == old(cursor).limit(),
            p + 25 <= cursor.limit(),
            n_hits == s[p + 24],
            0 <= p,
            i <= n_hits,
            cursor.pos() == p + 25 + 8 * i,
            r@.len() == i,
            refl@.len() == i,
            forall|j: int|
                0 <= j < i ==> #[trigger] r@[j] == word32(s, p + 25 + 8 * j, order) && refl@[j]
                    == word32(s, p + 29 + 8 * j, order),
        decreases n_hits - i,
    {
        let range = match cursor.read_u32(order) {
            Ok(w) => w,
            Err(e) => return Err(e),
        };
        let reflectance = match cursor.read_u32(order) {
            Ok(w) => w,
            Err(e) => return Err(e),
        };
        r.push(range);
        refl.push(reflectance);
        i = i + 1;
    }
    Ok(HancockDataRow { zen_bits, az_bits, x_bits, y_bits, z_bits, shot_n, n_hits, r, refl })
}

} // verus!
