use vstd::prelude::*;
use crate::bytes::{word32, word64, ByteOrder};
use crate::format::{
    file_error, record_fits, record_len, record_offset, records_fit, row_encoded_at,
    rows_of_file, trailer_of,
};
use crate::batch::hits_upto;
use crate::record::HancockDataRow;

verus! {

/// Sum of the hit counts of `rows`.
pub open spec fn total_hits(rows: Seq<HancockDataRow>) -> int
    decreases rows.len(),
{
    if rows.len() == 0 {
        0
    } else {
        total_hits(rows.drop_last()) + rows.last().n_hits
    }
}

/// Sum of the lengths of the range sequences of `rows`.
pub open spec fn total_ranges(rows: Seq<HancockDataRow>) -> int
    decreases rows.len(),
{
    if rows.len() == 0 {
        0
    } else {
        total_ranges(rows.drop_last()) + rows.last().r@.len()
    }
}

/// Sum of the lengths of the reflectance sequences of `rows`.
pub open spec fn total_reflectances(rows: Seq<HancockDataRow>) -> int
    decreases rows.len(),
{
    if rows.len() == 0 {
        0
    } else {
        total_reflectances(rows.drop_last()) + rows.last().refl@.len()
    }
}

/// Over records whose sample sequences each hold one entry per hit, as
/// every decoded record does, the ranges, the reflectances and the hit
/// counts add up to the same total.
pub proof fn lemma_hit_totals(rows: Seq<HancockDataRow>)
    requires
        forall|i: int| 0 <= i < rows.len() ==> #[trigger] rows[i].wf(),
    ensures
        total_ranges(rows) == total_hits(rows),
        total_reflectances(rows) == total_hits(rows),
    decreases rows.len(),
{
    if rows.len() > 0 {
        let init = rows.drop_last();
        assert forall|i: int| 0 <= i < init.len() implies #[trigger] init[i].wf() by {
            assert(init[i] == rows[i]);
        }
        assert(rows[rows.len() - 1].wf());
        lemma_hit_totals(init);
    }
}

proof fn lemma_prefix_hits(rows: Seq<HancockDataRow>, s: Seq<u8>, order: ByteOrder, k: nat)
    requires
        k <= rows.len(),
        forall|i: int|
            0 <= i < rows.len() ==> row_encoded_at(
                #[trigger] rows[i],
                s,
                record_offset(s, i as nat),
                order,
            ),
    ensures
        total_hits(rows.subrange(0, k as int)) == hits_upto(s, k),
    decreases k,
{
    if k > 0 {
        let pre = rows.subrange(0, k as int);
        assert(pre.drop_last() =~= rows.subrange(0, k - 1));
        assert(row_encoded_at(rows[k - 1], s, record_offset(s, (k - 1) as nat), order));
        lemma_prefix_hits(rows, s, order, (k - 1) as nat);
    }
}

/// The records that a file decodes to hold, over all of them, as many
/// ranges and as many reflectances as hits, and that total is the one that
/// the file's summary reports.
pub proof fn lemma_file_hit_totals(rows: Seq<HancockDataRow>, s: Seq<u8>, order: ByteOrder)
    requires
        rows_of_file(rows, s, order),
    ensures
        total_ranges(rows) == total_hits(rows),
        total_reflectances(rows) == total_hits(rows),
        total_hits(rows) == hits_upto(s, rows.len()),
{
    assert forall|i: int| 0 <= i < rows.len() implies #[trigger] rows[i].wf() by {
        assert(row_encoded_at(rows[i], s, record_offset(s, i as nat), order));
    }
    lemma_hit_totals(rows);
    lemma_prefix_hits(rows, s, order, rows.len());
    assert(rows.subrange(0, rows.len() as int) =~= rows);
}

/// A file whose trailer declares no records decodes without error, to no
/// records, whatever its body holds.
pub proof fn lemma_zero_records(s: Seq<u8>, order: ByteOrder)
    requires
        s.len() >= 28,
        trailer_of(s, order).n_beams == 0,
    ensures
        file_error(s, order) is None,
        forall|rows: Seq<HancockDataRow>| #[trigger]
            rows_of_file(rows, s, order) ==> rows.len() == 0,
{
}

/// Two byte sequences that agree before `limit` hold the same record at `p`
/// where it lies wholly before `limit`.
proof fn lemma_same_record(s1: Seq<u8>, s2: Seq<u8>, p: int, limit: int, order: ByteOrder)
    requires
        forall|i: int| 0 <= i < limit ==> s1[i] == s2[i],
        record_fits(s1, p, limit),
        limit <= s2.len(),
    ensures
        record_len(s1, p) == record_len(s2, p),
        record_fits(s2, p, limit),
        forall|row: HancockDataRow| #[trigger]
            row_encoded_at(row, s1, p, order) == row_encoded_at(row, s2, p, order),
{
    assert(s1[p + 24] == s2[p + 24]);
    assert forall|q: int| 0 <= q && q + 4 <= limit implies #[trigger] word32(s1, q, order)
        == word32(s2, q, order) by {
        assert(s1[q] == s2[q] && s1[q + 1] == s2[q + 1] && s1[q + 2] == s2[q + 2] && s1[q + 3]
            == s2[q + 3]);
    }
    assert forall|row: HancockDataRow| #[trigger]
        row_encoded_at(row, s1, p, order) == row_encoded_at(row, s2, p, order) by {
        if row_encoded_at(row, s1, p, order) {
            assert forall|i: int| 0 <= i < row.n_hits implies #[trigger] row.r@[i] == word32(
                s2,
                p + 25 + 8 * i,
                order,
            ) && row.refl@[i] == word32(s2, p + 29 + 8 * i, order) by {
                assert(p + 29 + 8 * i + 4 <= p + 25 + 8 * row.n_hits);
                assert(word32(s1, p + 25 + 8 * i, order) == word32(s2, p + 25 + 8 * i, order));
                assert(word32(s1, p + 29 + 8 * i, order) == word32(s2, p + 29 + 8 * i, order));
            }
        }
        if row_encoded_at(row, s2, p, order) {
            assert forall|i: int| 0 <= i < row.n_hits implies #[trigger] row.r@[i] == word32(
                s1,
                p + 25 + 8 * i,
                order,
            ) && row.refl@[i] == word32(s1, p + 29 + 8 * i, order) by {
                assert(p + 29 + 8 * i + 4 <= p + 25 + 8 * row.n_hits);
                assert(word32(s1, p + 25 + 8 * i, order) == word32(s2, p + 25 + 8 * i, order));
                assert(word32(s1, p + 29 + 8 * i, order) == word32(s2, p + 29 + 8 * i, order));
            }
        }
    }
}

/// Where `s1` and `s2` agree before `limit`, and the first `n` records of
/// `s1` lie before it, those records start at the same places in both.
proof fn lemma_same_offsets(s1: Seq<u8>, s2: Seq<u8>, limit: int, n: nat)
    requires
        forall|i: int| 0 <= i < limit ==> s1[i] == s2[i],
        records_fit(s1, limit, n),
        limit <= s2.len(),
    ensures
        forall|k: nat| k <= n ==> #[trigger] record_offset(s1, k) == record_offset(s2, k),
    decreases n,
{
    if n > 0 {
        let m = (n - 1) as nat;
        assert forall|k: nat| k < m implies record_fits(s1, #[trigger] record_offset(s1, k), limit)
            by {
            assert(k < n);
        }
        lemma_same_offsets(s1, s2, limit, m);
        assert forall|k: nat| k <= n implies #[trigger] record_offset(s1, k) == record_offset(
            s2,
            k,
        ) by {
            if k == n {
                let p = record_offset(s1, m);
                assert(record_offset(s1, m) == record_offset(s2, m));
                assert(record_fits(s1, p, limit));
                assert(s1[p + 24] == s2[p + 24]);
            }
        }
    }
}

/// The trailer's count is authoritative: bytes added at the end of a body
/// that holds the declared records change neither the trailer, nor whether
/// the file decodes, nor the records that it decodes to.
pub proof fn lemma_extra_body_bytes(
    body: Seq<u8>,
    extra: Seq<u8>,
    trailer: Seq<u8>,
    order: ByteOrder,
)
    requires
        trailer.len() == 28,
        file_error(body + trailer, order) is None,
    ensures
        trailer_of(body + extra + trailer, order) == trailer_of(body + trailer, order),
        file_error(body + extra + trailer, order) is None,
        forall|rows: Seq<HancockDataRow>| #[trigger]
            rows_of_file(rows, body + trailer, order) == rows_of_file(
                rows,
                body + extra + trailer,
                order,
            ),
{
    let s1 = body + trailer;
    let s2 = body + extra + trailer;
    let limit = body.len() as int;
    let t1 = s1.len() - 28;
    let t2 = s2.len() - 28;
    assert(trailer_of(s1, order) == trailer_of(s2, order)) by {
        assert(word64(s1, t1, order) == word64(s2, t2, order));
        assert(word64(s1, t1 + 8, order) == word64(s2, t2 + 8, order));
        assert(word64(s1, t1 + 16, order) == word64(s2, t2 + 16, order));
        assert(word32(s1, t1 + 24, order) == word32(s2, t2 + 24, order));
    }
    let n = trailer_of(s1, order).n_beams as nat;
    assert forall|i: int| 0 <= i < limit implies s1[i] == s2[i] by {
        assert(s1[i] == body[i]);
        assert(s2[i] == body[i]);
    }
    lemma_same_offsets(s1, s2, limit, n);
    assert forall|k: nat| k < n implies record_fits(s2, #[trigger] record_offset(s2, k), t2) by {
        assert(record_offset(s1, k) == record_offset(s2, k));
        assert(record_fits(s1, record_offset(s1, k), limit));
        lemma_same_record(s1, s2, record_offset(s1, k), limit, order);
    }
    assert forall|rows: Seq<HancockDataRow>| #[trigger]
        rows_of_file(rows, s1, order) == rows_of_file(rows, s2, order) by {
        if rows.len() == n {
            assert forall|k: int| 0 <= k < rows.len() implies row_encoded_at(
                #[trigger] rows[k],
                s1,
                record_offset(s1, k as nat),
                order,
            ) == row_encoded_at(rows[k], s2, record_offset(s2, k as nat), order) by {
                assert(record_offset(s1, k as nat) == record_offset(s2, k as nat));
                assert(record_fits(s1, record_offset(s1, k as nat), limit));
                lemma_same_record(s1, s2, record_offset(s1, k as nat), limit, order);
            }
        }
    }
}

} // verus!
