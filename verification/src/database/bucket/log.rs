//! The log of a bucket, from the inserts to the file.
//!
//! Inserts that follow one another reserve adjacent ranges at the tail. The
//! laws of this module follow their jobs through the writer: the jobs are
//! merged into one chunk, writing them leaves the header page and the
//! records in the file, one after the other, and a scan of that file counts
//! the documents that were inserted.

use super::layout::{
    lemma_count_documents, lemma_log_len, lemma_record_bytes_len, lemma_record_len, log_bytes,
    log_len, record_bytes, record_count, record_len,
};
use super::writer::queued::{
    apply_chunks, apply_jobs, coalesced, gaps, highest_end, lemma_chunks_write_what_jobs_write,
    lemma_coalesced_count, lemma_coalesced_last_end, write_at, WriteView,
};
use vstd::prelude::*;

verus! {

/// The jobs that a bucket queues when `payloads` are inserted one after the
/// other and the tail offset is `start` before the first insert.
pub open spec fn jobs_of(start: int, payloads: Seq<Seq<u8>>) -> Seq<WriteView>
    decreases payloads.len(),
{
    if payloads.len() == 0 {
        Seq::empty()
    } else {
        jobs_of(start, payloads.drop_last()).push(
            WriteView {
                seek: (
                    (start + log_len(payloads.drop_last())) as u64,
                    (start + log_len(payloads)) as u64,
                ),
                len: record_len(payloads.last().len() as int) as usize,
                bytes: record_bytes(payloads.last()),
            },
        )
    }
}

/// Whether the records of `payloads` fit behind `start`: each record fits in
/// memory and the last one ends within the offsets of a file.
pub open spec fn log_fits(start: int, payloads: Seq<Seq<u8>>) -> bool {
    &&& 0 <= start
    &&& start + log_len(payloads) <= u64::MAX
    &&& forall|i: int|
        0 <= i < payloads.len() ==> record_len((#[trigger] payloads[i]).len() as int)
            <= usize::MAX
}

/// A log that fits still fits without its last record.
pub proof fn lemma_log_fits_prefix(start: int, payloads: Seq<Seq<u8>>)
    requires
        log_fits(start, payloads),
        payloads.len() > 0,
    ensures
        log_fits(start, payloads.drop_last()),
        log_len(payloads.drop_last()) <= log_len(payloads),
{
    lemma_log_len(payloads.drop_last());
    lemma_record_len(payloads.last().len() as int);
    assert forall|i: int| 0 <= i < payloads.drop_last().len() implies record_len(
        (#[trigger] payloads.drop_last()[i]).len() as int,
    ) <= usize::MAX by {
        assert(payloads.drop_last()[i] == payloads[i]);
    }
}

/// There is one job for each payload. Each job is well formed, the first
/// starts at `start`, each starts where the one before it ends, and the last
/// ends at the tail.
pub proof fn lemma_jobs_adjacent(start: int, payloads: Seq<Seq<u8>>)
    requires
        log_fits(start, payloads),
    ensures
        jobs_of(start, payloads).len() == payloads.len(),
        forall|i: int|
            0 <= i < payloads.len() ==> (#[trigger] jobs_of(start, payloads)[i]).wf(),
        forall|i: int|
            0 <= i < payloads.len() ==> (#[trigger] jobs_of(start, payloads)[i]).bytes
                == record_bytes(payloads[i]),
        payloads.len() > 0 ==> jobs_of(start, payloads)[0].seek.0 == start,
        payloads.len() > 0 ==> jobs_of(start, payloads).last().seek.1 == start + log_len(
            payloads,
        ),
        forall|i: int|
            0 < i < payloads.len() ==> (#[trigger] jobs_of(start, payloads)[i]).seek.0
                == jobs_of(start, payloads)[i - 1].seek.1,
        gaps(jobs_of(start, payloads)) == 0,
    decreases payloads.len(),
{
    if payloads.len() > 0 {
        let before = payloads.drop_last();
        lemma_log_fits_prefix(start, payloads);
        lemma_jobs_adjacent(start, before);
        lemma_log_len(before);
        lemma_log_len(payloads);
        lemma_record_bytes_len(payloads.last());
        lemma_record_len(payloads.last().len() as int);
        let jobs = jobs_of(start, payloads);
        assert(jobs.drop_last() =~= jobs_of(start, before));
        assert forall|i: int| 0 <= i < payloads.len() implies (#[trigger] jobs[i]).wf()
            && jobs[i].bytes == record_bytes(payloads[i]) by {
            if i < before.len() {
                assert(jobs[i] == jobs_of(start, before)[i]);
                assert(before[i] == payloads[i]);
            }
        }
        assert forall|i: int| 0 < i < payloads.len() implies (#[trigger] jobs[i]).seek.0
            == jobs[i - 1].seek.1 by {
            if i < before.len() {
                assert(jobs[i] == jobs_of(start, before)[i]);
                assert(jobs[i - 1] == jobs_of(start, before)[i - 1]);
            } else {
                assert(jobs[i - 1] == jobs_of(start, before).last());
            }
        }
        if before.len() > 0 {
            assert(jobs[0] == jobs_of(start, before)[0]);
            assert(jobs[jobs.len() - 2] == jobs[payloads.len() - 1 - 1]);
        }
    }
}

/// Writing at the end of a file appends to it.
pub proof fn lemma_write_at_end(file: Seq<u8>, bytes: Seq<u8>)
    ensures
        write_at(file, file.len() as int, bytes) == file + bytes,
{
    assert(write_at(file, file.len() as int, bytes) =~= file + bytes);
}

/// Writing the jobs of a log behind a header leaves the header and the
/// records of the log, one after the other.
pub proof fn lemma_jobs_write_log(head: Seq<u8>, payloads: Seq<Seq<u8>>)
    requires
        log_fits(head.len() as int, payloads),
    ensures
        apply_jobs(head, jobs_of(head.len() as int, payloads)) == head + log_bytes(payloads),
    decreases payloads.len(),
{
    let start = head.len() as int;
    if payloads.len() == 0 {
        assert(head + log_bytes(payloads) =~= head);
    } else {
        let before = payloads.drop_last();
        lemma_log_fits_prefix(start, payloads);
        lemma_jobs_write_log(head, before);
        lemma_log_len(before);
        let jobs = jobs_of(start, payloads);
        assert(jobs.drop_last() =~= jobs_of(start, before));
        let file = head + log_bytes(before);
        lemma_write_at_end(file, record_bytes(payloads.last()));
        assert(file + record_bytes(payloads.last()) =~= head + log_bytes(payloads));
    }
}

/// The writer merges the jobs of a log into one chunk, and the chunk ends
/// at the tail: that is the cursor which the pass persists.
pub proof fn lemma_log_is_one_chunk(start: int, payloads: Seq<Seq<u8>>)
    requires
        log_fits(start, payloads),
        payloads.len() > 0,
    ensures
        coalesced(jobs_of(start, payloads)).len() == 1,
        highest_end(coalesced(jobs_of(start, payloads))) == start + log_len(payloads),
{
    let jobs = jobs_of(start, payloads);
    lemma_jobs_adjacent(start, payloads);
    lemma_coalesced_count(jobs);
    lemma_coalesced_last_end(jobs);
    lemma_log_len(payloads);
    let chunks = coalesced(jobs);
    assert(chunks.drop_last() =~= Seq::empty());
    assert(highest_end(chunks.drop_last()) == 0);
}

/// After the writer wrote the chunks of a log behind a header page, the
/// file holds the page and the records of the log. Its size is the size of
/// the page and the rounded sizes of the records, and a scan from the end of
/// the page counts one document for each insert.
pub proof fn lemma_file_after_inserts(page: Seq<u8>, payloads: Seq<Seq<u8>>)
    requires
        log_fits(page.len() as int, payloads),
    ensures
        apply_chunks(page, coalesced(jobs_of(page.len() as int, payloads))) == page
            + log_bytes(payloads),
        (page + log_bytes(payloads)).len() == page.len() + log_len(payloads),
        record_count(page + log_bytes(payloads), page.len() as int) == payloads.len(),
{
    let start = page.len() as int;
    lemma_jobs_adjacent(start, payloads);
    lemma_chunks_write_what_jobs_write(page, jobs_of(start, payloads));
    lemma_jobs_write_log(page, payloads);
    lemma_log_len(payloads);
    assert forall|i: int| 0 <= i < payloads.len() implies (#[trigger] payloads[i]).len()
        <= u64::MAX by {
        lemma_record_len(payloads[i].len() as int);
    }
    lemma_count_documents(page, payloads);
}

} // verus!
