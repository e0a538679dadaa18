use vstd::prelude::*;
use crate::bytes::{ByteCursor, ByteOrder};
use crate::format::{
    file_error, record_fits, record_len, record_offset, records_fit, row_encoded_at,
    rows_of_file, trailer_of, DatasetMetadata, DecodeError, TRAILER_LEN,
};
use crate::record::{read_row, HancockDataRow};

verus! {

/// Reads the trailer at the end of the cursor's readable region and leaves
/// the cursor at byte 0. Fails with `TruncatedFile` exactly where the region
/// is shorter than the trailer.
pub fn read_metadata(cursor: &mut ByteCursor, order: ByteOrder) -> (r: Result<
    DatasetMetadata,
    DecodeError,
>)
    requires
        old(cursor).wf(),
        old(cursor).limit() == old(cursor).data().len(),
    ensures
        final(cursor).wf(),
        final(cursor).data() == old(cursor).data(),
        final(cursor).limit() == old(cursor).limit(),
        match r {
            Ok(m) => old(cursor).data().len() >= 28 && m == trailer_of(old(cursor).data(), order)
                && final(cursor).pos() == 0,
            Err(e) => e == DecodeError::TruncatedFile && old(cursor).data().len() < 28
                && final(cursor).pos() == old(cursor).pos(),
        },
{
    if cursor.len() < TRAILER_LEN {
        return Err(DecodeError::TruncatedFile);
    }
    if cursor.seek_from_end(TRAILER_LEN).is_err() {
        return Err(DecodeError::TruncatedFile);
    }
    let xoff_bits = match cursor.read_u64(order) {
        Ok(w) => w,
        Err(_) => return Err(DecodeError::TruncatedFile),
    };
    let yoff_bits = match cursor.read_u64(order) {
        Ok(w) => w,
        Err(_) => return Err(DecodeError::TruncatedFile),
    };
    let zoff_bits = match cursor.read_u64(order) {
        Ok(w) => w,
        Err(_) => return Err(DecodeError::TruncatedFile),
    };
    let n_beams = match cursor.read_u32(order) {
        Ok(w) => w,
        Err(_) => return Err(DecodeError::TruncatedFile),
    };
    if cursor.seek_from_start(0).is_err() {
        return Err(DecodeError::TruncatedFile);
    }
    Ok(DatasetMetadata { xoff_bits, yoff_bits, zoff_bits, n_beams })
}

/// A decoding session over the bytes of one file: the trailer, read once,
/// and a cursor that walks the body record by record.
pub struct HancockReader {
    cursor: ByteCursor,
    order: ByteOrder,
    meta: DatasetMetadata,
    current_beam: u32,
}

impl HancockReader {
    /// The bytes of the file.
    pub closed spec fn data(&self) -> Seq<u8> {
        self.cursor.data()
    }

    pub closed spec fn order(&self) -> ByteOrder {
        self.order
    }

    /// What the trailer declares.
    pub closed spec fn meta(&self) -> DatasetMetadata {
        self.meta
    }

    /// How many records have been handed out.
    pub closed spec fn emitted(&self) -> nat {
        self.current_beam as nat
    }

    /// Where the next record starts.
    pub closed spec fn pos(&self) -> int {
        self.cursor.pos()
    }

    /// The end of the body, where the trailer starts.
    pub closed spec fn body_end(&self) -> int {
        self.cursor.limit()
    }

    pub closed spec fn cursor_wf(&self) -> bool {
        self.cursor.wf()
    }

    /// The session's invariant: the cursor stands where the next record
    /// starts, and every record handed out lay wholly in the body.
    pub open spec fn wf(&self) -> bool {
        &&& self.cursor_wf()
        &&& self.data().len() >= 28
        &&& self.body_end() == self.data().len() - 28
        &&& self.meta() == trailer_of(self.data(), self.order())
        &&& self.emitted() <= self.meta().n_beams
        &&& self.pos() == record_offset(self.data(), self.emitted())
        &&& records_fit(self.data(), self.body_end(), self.emitted())
    }

    /// Opens a session over `data`: reads the trailer and positions the
    /// cursor at the first record. Fails with `TruncatedFile` exactly where
    /// `data` is shorter than the trailer.
    pub fn from_bytes(data: Vec<u8>, order: ByteOrder) -> (r: Result<HancockReader, DecodeError>)
        ensures
            r is Err <==> data@.len() < 28,
            match r {
                Ok(rd) => rd.wf() && rd.data() == data@ && rd.order() == order && rd.meta()
                    == trailer_of(data@, order) && rd.emitted() == 0 && rd.body_end() == data@.len()
                    - 28,
                Err(e) => e == DecodeError::TruncatedFile,
            },
    {
        let mut cursor = ByteCursor::new(data);
        let meta = match read_metadata(&mut cursor, order) {
            Ok(m) => m,
            Err(e) => return Err(e),
        };
        let body_end = cursor.len() - TRAILER_LEN;
        if cursor.set_limit(body_end).is_err() {
            return Err(DecodeError::TruncatedFile);
        }
        Ok(HancockReader { cursor, order, meta, current_beam: 0 })
    }

    /// What the trailer declares.
    pub fn metadata(&self) -> (r: DatasetMetadata)
        ensures
            r == self.meta(),
    {
        self.meta
    }

    /// Number of records that the file declares.
    pub fn n_beams(&self) -> (r: u32)
        ensures
            r == self.meta().n_beams,
    {
        self.meta.n_beams
    }

    /// Number of records handed out so far.
    pub fn current_beam(&self) -> (r: u32)
        ensures
            r == self.emitted(),
    {
        self.current_beam
    }

    /// The next record. `Ok(None)` once the declared number of records has
    /// been handed out, whatever bytes remain; `CorruptFile`, with the
    /// session unchanged, where the next record runs into the trailer.
    pub fn next(&mut self) -> (r: Result<Option<HancockDataRow>, DecodeError>)
        requires
            old(self).wf(),
        ensures
            final(self).wf(),
            final(self).data() == old(self).data(),
            final(self).order() == old(self).order(),
            final(self).meta() == old(self).meta(),
            final(self).body_end() == old(self).body_end(),
            match r {
                Ok(None) => old(self).emitted() == old(self).meta().n_beams && final(self).emitted()
                    == old(self).emitted() && final(self).pos() == old(self).pos(),
                Ok(Some(row)) => old(self).emitted() < old(self).meta().n_beams && record_fits(
                    old(self).data(),
                    old(self).pos(),
                    old(self).body_end(),
                ) && row_encoded_at(row, old(self).data(), old(self).pos(), old(self).order())
                    && row.wf() && final(self).emitted() == old(self).emitted() + 1
                    && final(self).pos() == old(self).pos() + record_len(
                    old(self).data(),
                    old(self).pos(),
                ),
                Err(e) => e == DecodeError::CorruptFile && old(self).emitted() < old(
                    self,
                ).meta().n_beams && !record_fits(
                    old(self).data(),
                    old(self).pos(),
                    old(self).body_end(),
                ) && final(self).emitted() == old(self).emitted() && final(self).pos() == old(
                    self,
                ).pos(),
            },
    {
        if self.current_beam == self.meta.n_beams {
            return Ok(None);
        }
        let start = self.cursor.position();
        match read_row(&mut self.cursor, self.order) {
            Ok(row) => {
                proof {
                    let s = self.cursor.data();
                    let k = self.current_beam as nat;
                    assert(record_offset(s, k + 1) == start + record_len(s, start as int));
                    assert forall|j: nat| j < k + 1 implies record_fits(
                        s,
                        #[trigger] record_offset(s, j),
                        self.cursor.limit(),
                    ) by {
                        if j < k {
                        } else {
                            assert(j == k);
                        }
                    }
                }
                self.current_beam = self.current_beam + 1;
                Ok(Some(row))
            },
            Err(_) => {
                let _ = self.cursor.seek_from_start(start);
                Err(DecodeError::CorruptFile)
            },
        }
    }

    /// All records not yet handed out, in storage order. Fails with
    /// `CorruptFile` exactly where the body is too short for the declared
    /// count.
    pub fn read_all(&mut self) -> (r: Result<Vec<HancockDataRow>, DecodeError>)
        requires
            old(self).wf(),
        ensures
            final(self).wf(),
            final(self).data() == old(self).data(),
            final(self).order() == old(self).order(),
            final(self).meta() == old(self).meta(),
            r is Ok <==> records_fit(
                old(self).data(),
                old(self).body_end(),
                old(self).meta().n_beams as nat,
            ),
            match r {
                Ok(rows) => rows@.len() == old(self).meta().n_beams - old(self).emitted()
                    && final(self).emitted() == old(self).meta().n_beams && forall|i: int|
                    0 <= i < rows@.len() ==> #[trigger] rows@[i].wf() && row_encoded_at(
                        rows@[i],
                        old(self).data(),
                        record_offset(old(self).data(), (old(self).emitted() + i) as nat),
                        old(self).order(),
                    ),
                Err(e) => e == DecodeError::CorruptFile,
            },
    {
        let mut rows: Vec<HancockDataRow> = Vec::new();
        let ghost start = self.emitted();
        loop
            invariant
                self.wf(),
                self.data() == old(self).data(),
                self.order() == old(self).order(),
                self.meta() == old(self).meta(),
                self.body_end() == old(self).body_end(),
                start == old(self).emitted(),
                start <= self.emitted(),
                rows@.len() == self.emitted() - start,
                forall|i: int|
                    0 <= i < rows@.len() ==> #[trigger] rows@[i].wf() && row_encoded_at(
                        rows@[i],
                        self.data(),
                        record_offset(self.data(), (start + i) as nat),
                        self.order(),
                    ),
            decreases self.meta().n_beams - self.emitted(),
        {
            match self.next() {
                Ok(Some(row)) => {
                    rows.push(row);
                },
                Ok(None) => {
                    return Ok(rows);
                },
                Err(e) => {
                    return Err(e);
                },
            }
        }
    }
}

/// Decodes a whole file: its trailer, then every record that it declares,
/// in storage order. The error is the one that [`file_error`] gives.
pub fn decode_file(data: Vec<u8>, order: ByteOrder) -> (r: Result<
    (DatasetMetadata, Vec<HancockDataRow>),
    DecodeError,
>)
    ensures
        match r {
            Ok((m, rows)) => file_error(data@, order) is None && m == trailer_of(data@, order)
                && rows_of_file(rows@, data@, order) && forall|i: int|
                0 <= i < rows@.len() ==> #[trigger] rows@[i].wf(),
            Err(e) => file_error(data@, order) == Some(e),
        },
{
    let ghost s = data@;
    let mut reader = match HancockReader::from_bytes(data, order) {
        Ok(rd) => rd,
        Err(e) => return Err(e),
    };
    match reader.read_all() {
        Ok(rows) => {
            assert forall|i: int| 0 <= i < rows@.len() implies row_encoded_at(
                #[trigger] rows@[i],
                s,
                record_offset(s, i as nat),
                order,
            ) by {
                assert(rows@[i].wf());
            }
            Ok((reader.metadata(), rows))
        },
        Err(e) => Err(e),
    }
}

} // verus!
