use vstd::prelude::*;
use crate::bytes::ByteOrder;
use crate::format::{
    file_error, record_fits, record_offset, records_fit, trailer_of, DecodeError,
};
use crate::reader::HancockReader;

verus! {

/// Records between two progress reports of one file.
pub const PROGRESS_STEP: u32 = 10000;

/// What a completed decoding session found in one file.
#[derive(Clone, Copy, Debug, PartialEq, Eq, Structural)]
pub struct FileSummary {
    /// Records decoded, the count that the trailer declares.
    pub records: u32,
    /// Range and reflectance pairs over all those records.
    pub hits: u64,
}

/// How many files of a batch decoded, and how many failed.
#[derive(Clone, Copy, Debug, PartialEq, Eq, Structural)]
pub struct BatchReport {
    pub succeeded: usize,
    pub failed: usize,
}

/// Sum of the hit counts of the first `n` records of the body of `s`.
pub open spec fn hits_upto(s: Seq<u8>, n: nat) -> int
    decreases n,
{
    if n == 0 {
        0
    } else {
        hits_upto(s, (n - 1) as nat) + s[record_offset(s, (n - 1) as nat) + 24]
    }
}

/// The outcome of decoding the file `s` to completion.
pub open spec fn summary_of(s: Seq<u8>, order: ByteOrder) -> Result<FileSummary, DecodeError> {
    match file_error(s, order) {
        Some(e) => Err(e),
        None => {
            let n = trailer_of(s, order).n_beams;
            Ok(FileSummary { records: n, hits: hits_upto(s, n as nat) as u64 })
        },
    }
}

/// Number of successful outcomes in `outcomes`.
pub open spec fn count_ok(outcomes: Seq<Result<FileSummary, DecodeError>>) -> int
    decreases outcomes.len(),
{
    if outcomes.len() == 0 {
        0
    } else {
        count_ok(outcomes.drop_last()) + if outcomes.last() is Ok {
            1int
        } else {
            0
        }
    }
}

proof fn lemma_hits_bound(s: Seq<u8>, n: nat)
    ensures
        0 <= hits_upto(s, n) <= 255 * n,
    decreases n,
{
    if n > 0 {
        lemma_hits_bound(s, (n - 1) as nat);
    }
}

proof fn lemma_count_ok_bound(outcomes: Seq<Result<FileSummary, DecodeError>>)
    ensures
        0 <= count_ok(outcomes) <= outcomes.len(),
    decreases outcomes.len(),
{
    if outcomes.len() > 0 {
        lemma_count_ok_bound(outcomes.drop_last());
    }
}

/// Whether to move a file's progress indicator after `current` of `total`
/// records: at each multiple of the step, and always at completion, where
/// the position is the total.
pub fn progress_position(current: u32, total: u32) -> (r: Option<u32>)
    requires
        current <= total,
    ensures
        current == total ==> r == Some(total),
        current < total ==> (r is Some <==> current % 10000 == 0),
        r matches Some(p) ==> p == current,
{
    if current == total || current % PROGRESS_STEP == 0 {
        Some(current)
    } else {
        None
    }
}

/// Runs a session to completion, record by record, and sums the hits.
pub fn summarize_reader(reader: &mut HancockReader) -> (r: Result<FileSummary, DecodeError>)
    requires
        old(reader).wf(),
        old(reader).emitted() == 0,
    ensures
        r == summary_of(old(reader).data(), old(reader).order()),
{
    let ghost s = reader.data();
    let ghost order = reader.order();
    let mut hits: u64 = 0;
    loop
        invariant
            reader.wf(),
            reader.data() == s,
            reader.order() == order,
            s == old(reader).data(),
            order == old(reader).order(),
            reader.meta() == trailer_of(s, order),
            reader.body_end() == s.len() - 28,
            hits == hits_upto(s, reader.emitted()),
        decreases reader.meta().n_beams - reader.emitted(),
    {
        let ghost k = reader.emitted();
        proof {
            lemma_hits_bound(s, k);
        }
        match reader.next() {
            Ok(Some(row)) => {
                assert(row.n_hits == s[record_offset(s, k) + 24]);
                hits = hits + row.n_hits as u64;
            },
            Ok(None) => {
                return Ok(FileSummary { records: reader.n_beams(), hits });
            },
            Err(e) => {
                assert(!record_fits(s, record_offset(s, k), s.len() - 28));
                assert(!records_fit(
                    s,
                    s.len() - 28,
                    trailer_of(s, order).n_beams as nat,
                ));
                return Err(e);
            },
        }
    }
}

/// Decodes the bytes of one file to completion: the outcome that a batch
/// reports for it.
pub fn summarize_file(data: Vec<u8>, order: ByteOrder) -> (r: Result<FileSummary, DecodeError>)
    ensures
        r == summary_of(data@, order),
{
    match HancockReader::from_bytes(data, order) {
        Ok(mut reader) => summarize_reader(&mut reader),
        Err(e) => Err(e),
    }
}

/// Decodes each file of a batch on its own. The outcome of each file is the
/// one that its bytes alone determine, and stands at its index: a failure
/// of one file leaves the outcomes of the others as they would be alone.
pub fn decode_batch(files: Vec<Vec<u8>>, order: ByteOrder) -> (r: Vec<
    Result<FileSummary, DecodeError>,
>)
    ensures
        r@.len() == files@.len(),
        forall|i: int| 0 <= i < files@.len() ==> #[trigger] r@[i] == summary_of(files@[i]@, order),
{
    let mut out: Vec<Result<FileSummary, DecodeError>> = Vec::new();
    let mut rest = files;
    let ghost all = rest@;
    let mut i: usize = 0;
    let n = rest.len();
    while i < n
        invariant
            n == all.len(),
            i <= n,
            rest@ == all.subrange(i as int, n as int),
            out@.len() == i,
            forall|j: int| 0 <= j < i ==> #[trigger] out@[j] == summary_of(all[j]@, order),
        decreases n - i,
    {
        let data = rest.remove(0);
        assert(rest@ =~= all.subrange(i + 1, n as int));
        out.push(summarize_file(data, order));
        i = i + 1;
    }
    out
}

/// Counts the files of a batch that decoded and those that failed.
pub fn tally(outcomes: &Vec<Result<FileSummary, DecodeError>>) -> (r: BatchReport)
    ensures
        r.succeeded == count_ok(outcomes@),
        r.failed == outcomes@.len() - count_ok(outcomes@),
{
    let mut succeeded: usize = 0;
    let mut i: usize = 0;
    while i < outcomes.len()
        invariant
            i <= outcomes@.len(),
            succeeded == count_ok(outcomes@.subrange(0, i as int)),
        decreases outcomes@.len() - i,
    {
        proof {
            let sub = outcomes@.subrange(0, i + 1);
            assert(sub.drop_last() =~= outcomes@.subrange(0, i as int));
            lemma_count_ok_bound(outcomes@.subrange(0, i as int));
        }
        if outcomes[i].is_ok() {
            succeeded = succeeded + 1;
        }
        i = i + 1;
    }
    proof {
        assert(outcomes@.subrange(0, outcomes@.len() as int) =~= outcomes@);
        lemma_count_ok_bound(outcomes@);
    }
    BatchReport { succeeded, failed: outcomes.len() - succeeded }
}

} // verus!
