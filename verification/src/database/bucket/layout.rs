//! The layout of a bucket file.
//!
//! The first page of the file is its header: the length of the encoded
//! schema as two bytes, the encoded schema, zeros, and in the last sixteen
//! bytes of the page the tail cursor as eight bytes, followed by eight bytes
//! kept free. Behind the header stand the records, one after the other. A
//! record is the length of a payload as eight bytes, the payload, and zeros
//! up to the next multiple of eight. All numbers are little-endian.

use crate::utils::bytes::{append_bytes, append_zeros, zeros};
use crate::utils::endian::{
    lemma_unsigned_round_trip, u16_from_le_bytes, u16_to_le_bytes, u64_from_le_bytes,
    u64_to_le_bytes,
};
use crate::utils::numbers::{lemma_round_up_bounds, round_up};
use vstd::bytes::{
    spec_u16_from_le_bytes, spec_u16_to_le_bytes, spec_u64_from_le_bytes, spec_u64_to_le_bytes,
};
use vstd::prelude::*;

verus! {

/// The number of bytes at the end of the header page that are kept for the
/// tail cursor.
pub const CURSOR_RESERVE: u64 = 16;

/// The number of bytes of a length prefix of a record, and of the cursor.
pub const WORD: usize = 8;

/// The number of bytes of the length prefix of the schema.
pub const SCHEMA_PREFIX: usize = 2;

/// The offset of the tail cursor in a header page of `page_size` bytes.
pub open spec fn cursor_at(page_size: int) -> int {
    page_size - CURSOR_RESERVE
}

/// Whether a schema of `schema_len` encoded bytes has room in a header page
/// of `page_size` bytes: its length fits the prefix, and it ends before the
/// cursor.
pub open spec fn schema_fits(schema_len: int, page_size: int) -> bool {
    &&& schema_len <= u16::MAX
    &&& SCHEMA_PREFIX + schema_len + CURSOR_RESERVE <= page_size
}

/// The header page of `page_size` bytes that holds an encoded schema and a
/// tail cursor.
pub open spec fn header_page(schema: Seq<u8>, page_size: int, tail: u64) -> Seq<u8>
    recommends
        schema_fits(schema.len() as int, page_size),
{
    spec_u16_to_le_bytes(schema.len() as u16) + schema + zeros(
        (cursor_at(page_size) - SCHEMA_PREFIX - schema.len()) as nat,
    ) + spec_u64_to_le_bytes(tail) + zeros(WORD as nat)
}

/// The encoded schema that a header page holds, where the page is long
/// enough to hold its prefix and what the prefix announces.
pub open spec fn schema_in(page: Seq<u8>) -> Option<Seq<u8>> {
    if page.len() < SCHEMA_PREFIX {
        None
    } else {
        let len = spec_u16_from_le_bytes(page.subrange(0, SCHEMA_PREFIX as int));
        if SCHEMA_PREFIX + len > page.len() {
            None
        } else {
            Some(page.subrange(SCHEMA_PREFIX as int, SCHEMA_PREFIX + len))
        }
    }
}

/// The tail cursor that a header page of `page_size` bytes holds, where the
/// page reaches to the end of the cursor.
pub open spec fn cursor_in(page: Seq<u8>, page_size: int) -> Option<u64> {
    if page_size < CURSOR_RESERVE || cursor_at(page_size) + WORD > page.len() {
        None
    } else {
        Some(
            spec_u64_from_le_bytes(
                page.subrange(cursor_at(page_size), cursor_at(page_size) + WORD),
            ),
        )
    }
}

/// The number of bytes of the record of a payload of `payload_len` bytes.
pub open spec fn record_len(payload_len: int) -> int {
    round_up(WORD + payload_len, WORD as int)
}

/// The record of a payload.
pub open spec fn record_bytes(payload: Seq<u8>) -> Seq<u8> {
    spec_u64_to_le_bytes(payload.len() as u64) + payload + zeros(
        (record_len(payload.len() as int) - WORD - payload.len()) as nat,
    )
}

/// The records of a list of payloads, one after the other.
pub open spec fn log_bytes(payloads: Seq<Seq<u8>>) -> Seq<u8>
    decreases payloads.len(),
{
    if payloads.len() == 0 {
        Seq::empty()
    } else {
        log_bytes(payloads.drop_last()) + record_bytes(payloads.last())
    }
}

/// The number of bytes of the records of a list of payloads.
pub open spec fn log_len(payloads: Seq<Seq<u8>>) -> int
    decreases payloads.len(),
{
    if payloads.len() == 0 {
        0
    } else {
        log_len(payloads.drop_last()) + record_len(payloads.last().len() as int)
    }
}

/// The offset at which record `i` of a log starts that stands behind a
/// header of `page_size` bytes.
pub open spec fn record_start(page_size: int, payloads: Seq<Seq<u8>>, i: int) -> int
    recommends
        0 <= i <= payloads.len(),
{
    page_size + log_len(payloads.take(i))
}

/// The number of records that a scan of `file` finds from offset `at` on:
/// it reads a length, steps over the record, and stops where fewer than
/// eight bytes are left to read.
pub open spec fn record_count(file: Seq<u8>, at: int) -> nat
    decreases
            (if at <= file.len() {
                file.len() - at
            } else {
                0
            }),
    when at >= 0
    via record_count_decreases
{
    if at + WORD > file.len() {
        0
    } else {
        let len = spec_u64_from_le_bytes(file.subrange(at, at + WORD));
        1 + record_count(file, at + record_len(len as int))
    }
}

#[via_fn]
proof fn record_count_decreases(file: Seq<u8>, at: int) {
    if at + WORD <= file.len() {
        let len = spec_u64_from_le_bytes(file.subrange(at, at + WORD));
        lemma_round_up_bounds(WORD + len, WORD as int);
    }
}

/// A record is at least its prefix and its payload long, at most seven
/// bytes longer, and a multiple of eight.
pub proof fn lemma_record_len(payload_len: int)
    requires
        0 <= payload_len,
    ensures
        WORD + payload_len <= record_len(payload_len) < WORD + payload_len + WORD,
        record_len(payload_len) % (WORD as int) == 0,
{
    lemma_round_up_bounds(WORD + payload_len, WORD as int);
}

/// The record of a payload has the length of a record.
pub proof fn lemma_record_bytes_len(payload: Seq<u8>)
    ensures
        record_bytes(payload).len() == record_len(payload.len() as int),
{
    lemma_record_len(payload.len() as int);
    lemma_unsigned_round_trip();
}

/// The file grows by the rounded length of each record: the records of a
/// list of payloads take as many bytes as their lengths add up to.
pub proof fn lemma_log_len(payloads: Seq<Seq<u8>>)
    ensures
        log_bytes(payloads).len() == log_len(payloads),
        log_len(payloads) >= 0,
        log_len(payloads) % (WORD as int) == 0,
    decreases payloads.len(),
{
    if payloads.len() > 0 {
        lemma_log_len(payloads.drop_last());
        lemma_record_bytes_len(payloads.last());
        lemma_record_len(payloads.last().len() as int);
        let a = log_len(payloads.drop_last());
        let b = record_len(payloads.last().len() as int);
        assert((a + b) % 8 == 0) by (nonlinear_arith)
            requires
                a % 8 == 0,
                b % 8 == 0,
        ;
    }
}

/// The tail never goes back: a log that holds more records ends no earlier.
pub proof fn lemma_log_len_monotonic(payloads: Seq<Seq<u8>>, i: int, j: int)
    requires
        0 <= i <= j <= payloads.len(),
    ensures
        log_len(payloads.take(i)) <= log_len(payloads.take(j)),
    decreases j - i,
{
    if i < j {
        lemma_log_len_monotonic(payloads, i, j - 1);
        assert(payloads.take(j).drop_last() =~= payloads.take(j - 1));
        lemma_record_len(payloads.take(j).last().len() as int);
    }
}

/// A record starts where the record before it ends.
pub proof fn lemma_record_start_next(page_size: int, payloads: Seq<Seq<u8>>, i: int)
    requires
        0 <= i < payloads.len(),
    ensures
        record_start(page_size, payloads, i + 1) == record_start(page_size, payloads, i)
            + record_len(payloads[i].len() as int),
{
    assert(payloads.take(i + 1).drop_last() =~= payloads.take(i));
    assert(payloads.take(i + 1).last() == payloads[i]);
}

/// No two records share a byte: an earlier record ends before a later one
/// starts.
pub proof fn lemma_records_disjoint(page_size: int, payloads: Seq<Seq<u8>>, i: int, j: int)
    requires
        0 <= i < j < payloads.len(),
    ensures
        record_start(page_size, payloads, i) + record_len(payloads[i].len() as int)
            <= record_start(page_size, payloads, j),
{
    lemma_record_start_next(page_size, payloads, i);
    lemma_log_len_monotonic(payloads, i + 1, j);
}

/// Every byte behind the header and before the tail belongs to a record:
/// the first record starts at the end of the header, the last one ends at
/// the tail, and an offset between the two lies in the range of one record.
pub proof fn lemma_records_cover(page_size: int, payloads: Seq<Seq<u8>>, offset: int) -> (i: int)
    requires
        page_size <= offset < page_size + log_len(payloads),
    ensures
        0 <= i < payloads.len(),
        record_start(page_size, payloads, i) <= offset < record_start(page_size, payloads, i)
            + record_len(payloads[i].len() as int),
    decreases payloads.len(),
{
    if payloads.len() == 0 {
        0
    } else {
        let last = payloads.len() - 1;
        assert(payloads.take(last) =~= payloads.drop_last());
        lemma_record_start_next(page_size, payloads, last);
        assert(payloads.take(last + 1) =~= payloads);
        if offset >= record_start(page_size, payloads, last) {
            last
        } else {
            let i = lemma_records_cover(page_size, payloads.drop_last(), offset);
            assert(payloads.drop_last().take(i) =~= payloads.take(i));
            i
        }
    }
}

/// A scan steps over a record that stands at `at`, whatever follows it.
pub proof fn lemma_count_steps_over(file: Seq<u8>, at: int, payload: Seq<u8>)
    requires
        0 <= at,
        payload.len() <= u64::MAX,
        at + record_len(payload.len() as int) <= file.len(),
        file.subrange(at, at + record_len(payload.len() as int)) == record_bytes(payload),
    ensures
        record_count(file, at) == 1 + record_count(file, at + record_len(payload.len() as int)),
{
    lemma_record_len(payload.len() as int);
    lemma_unsigned_round_trip();
    let record = record_bytes(payload);
    assert(file.subrange(at, at + WORD) =~= record.subrange(0, WORD as int));
    assert(record.subrange(0, WORD as int) =~= spec_u64_to_le_bytes(payload.len() as u64));
}

/// A scan of a file that holds `head`, then the records of `payloads`, and
/// nothing else, finds from the end of `head` on as many records as there
/// are payloads.
pub proof fn lemma_count_of_log(head: Seq<u8>, payloads: Seq<Seq<u8>>, done: int)
    requires
        0 <= done <= payloads.len(),
        forall|i: int| 0 <= i < payloads.len() ==> (#[trigger] payloads[i]).len() <= u64::MAX,
    ensures
        record_count(
            head + log_bytes(payloads),
            head.len() + log_len(payloads.take(done)),
        ) == payloads.len() - done,
    decreases payloads.len() - done,
{
    let file = head + log_bytes(payloads);
    let at = head.len() + log_len(payloads.take(done));
    lemma_log_len(payloads);
    lemma_log_len(payloads.take(done));
    if done == payloads.len() {
        assert(payloads.take(done) =~= payloads);
    } else {
        let payload = payloads[done];
        lemma_record_start_next(head.len() as int, payloads, done);
        lemma_log_len_monotonic(payloads, done + 1, payloads.len() as int);
        assert(payloads.take(payloads.len() as int) =~= payloads);
        lemma_log_record_at(payloads, done);
        assert(file.subrange(at, at + record_len(payload.len() as int)) =~= log_bytes(
            payloads,
        ).subrange(
            log_len(payloads.take(done)),
            log_len(payloads.take(done)) + record_len(payload.len() as int),
        ));
        lemma_count_steps_over(file, at, payload);
        lemma_count_of_log(head, payloads, done + 1);
    }
}

/// Record `i` of a log stands at the offset at which it starts.
pub proof fn lemma_log_record_at(payloads: Seq<Seq<u8>>, i: int)
    requires
        0 <= i < payloads.len(),
    ensures
        log_len(payloads.take(i)) + record_len(payloads[i].len() as int) <= log_bytes(
            payloads,
        ).len(),
        log_bytes(payloads).subrange(
            log_len(payloads.take(i)),
            log_len(payloads.take(i)) + record_len(payloads[i].len() as int),
        ) == record_bytes(payloads[i]),
    decreases payloads.len(),
{
    let last = payloads.len() - 1;
    lemma_log_len(payloads);
    lemma_log_len(payloads.drop_last());
    lemma_record_bytes_len(payloads.last());
    lemma_log_len(payloads.take(i));
    lemma_record_len(payloads[i].len() as int);
    assert(payloads.take(last) =~= payloads.drop_last());
    if i == last {
        assert(log_bytes(payloads).subrange(
            log_len(payloads.take(i)),
            log_len(payloads.take(i)) + record_len(payloads[i].len() as int),
        ) =~= record_bytes(payloads[i]));
    } else {
        lemma_log_record_at(payloads.drop_last(), i);
        assert(payloads.drop_last().take(i) =~= payloads.take(i));
        assert(payloads.drop_last()[i] == payloads[i]);
        assert(log_bytes(payloads) == log_bytes(payloads.drop_last()) + record_bytes(
            payloads.last(),
        ));
        assert(log_bytes(payloads).subrange(
            log_len(payloads.take(i)),
            log_len(payloads.take(i)) + record_len(payloads[i].len() as int),
        ) =~= log_bytes(payloads.drop_last()).subrange(
            log_len(payloads.take(i)),
            log_len(payloads.take(i)) + record_len(payloads[i].len() as int),
        ));
    }
}

/// Counting the records of a file that holds a header page and the records
/// of `payloads` gives the number of payloads.
pub proof fn lemma_count_documents(page: Seq<u8>, payloads: Seq<Seq<u8>>)
    requires
        forall|i: int| 0 <= i < payloads.len() ==> (#[trigger] payloads[i]).len() <= u64::MAX,
    ensures
        record_count(page + log_bytes(payloads), page.len() as int) == payloads.len(),
{
    assert(payloads.take(0) =~= Seq::<Seq<u8>>::empty());
    lemma_count_of_log(page, payloads, 0);
}

/// A header page has the size of a page. Reading it gives back the schema
/// bytes and the tail cursor that it was made with.
pub proof fn lemma_header_page(schema: Seq<u8>, page_size: int, tail: u64)
    requires
        schema_fits(schema.len() as int, page_size),
    ensures
        header_page(schema, page_size, tail).len() == page_size,
        schema_in(header_page(schema, page_size, tail)) == Some(schema),
        cursor_in(header_page(schema, page_size, tail), page_size) == Some(tail),
{
    lemma_unsigned_round_trip();
    let page = header_page(schema, page_size, tail);
    assert(page.subrange(0, SCHEMA_PREFIX as int) =~= spec_u16_to_le_bytes(schema.len() as u16));
    assert(page.subrange(SCHEMA_PREFIX as int, SCHEMA_PREFIX + schema.len()) =~= schema);
    assert(page.subrange(cursor_at(page_size), cursor_at(page_size) + WORD)
        =~= spec_u64_to_le_bytes(tail));
}

/// The record of a payload, or `None` where its length does not fit in a
/// `usize`.
pub fn encode_record(payload: &[u8]) -> (record: Option<Vec<u8>>)
    ensures
        record is Some <==> record_len(payload@.len() as int) <= usize::MAX,
        record matches Some(bytes) ==> bytes@ == record_bytes(payload@),
{
    proof {
        lemma_record_len(payload@.len() as int);
    }
    let len = payload.len();
    if len > usize::MAX - 2 * WORD + 1 {
        return None;
    }
    let total = crate::utils::numbers::round_to_multiple(WORD + len, WORD);
    let mut record = u64_to_le_bytes(len as u64);
    append_bytes(&mut record, payload);
    append_zeros(&mut record, total - WORD - len);
    Some(record)
}

/// The header page of `page_size` bytes for an encoded schema and a tail
/// cursor, or `None` where the schema has no room in the page.
pub fn build_header_page(schema: &[u8], page_size: u64, tail: u64) -> (page: Option<Vec<u8>>)
    ensures
        page is Some <==> schema_fits(schema@.len() as int, page_size as int) && page_size
            <= usize::MAX,
        page matches Some(bytes) ==> bytes@ == header_page(schema@, page_size as int, tail),
{
    let len = schema.len();
    if len > 0xffff || page_size < CURSOR_RESERVE + 2 || page_size > usize::MAX as u64 {
        return None;
    }
    let room = (page_size - CURSOR_RESERVE - 2) as usize;
    if len > room {
        return None;
    }
    let mut page = u16_to_le_bytes(len as u16);
    append_bytes(&mut page, schema);
    append_zeros(&mut page, room - len);
    let cursor = u64_to_le_bytes(tail);
    append_bytes(&mut page, cursor.as_slice());
    append_zeros(&mut page, WORD);
    Some(page)
}

/// The encoded schema that a header page holds, or `None` where the page is
/// too short to hold its prefix or what the prefix announces.
pub fn read_schema(page: &[u8]) -> (schema: Option<&[u8]>)
    ensures
        schema is Some <==> schema_in(page@) is Some,
        schema matches Some(bytes) ==> schema_in(page@) == Some(bytes@),
{
    if page.len() < SCHEMA_PREFIX {
        return None;
    }
    let prefix = vstd::slice::slice_subrange(page, 0, SCHEMA_PREFIX);
    assert(prefix@.subrange(0, 2) =~= prefix@);
    let len = u16_from_le_bytes(prefix) as usize;
    if len > page.len() - SCHEMA_PREFIX {
        return None;
    }
    Some(vstd::slice::slice_subrange(page, SCHEMA_PREFIX, SCHEMA_PREFIX + len))
}

/// The tail cursor that a header page of `page_size` bytes holds, or `None`
/// where the page does not reach to the end of the cursor.
pub fn read_cursor(page: &[u8], page_size: u64) -> (cursor: Option<u64>)
    ensures
        cursor == cursor_in(page@, page_size as int),
{
    if page_size < CURSOR_RESERVE {
        return None;
    }
    let at = page_size - CURSOR_RESERVE;
    if page.len() < WORD || at > (page.len() - WORD) as u64 {
        return None;
    }
    let at = at as usize;
    let slot = vstd::slice::slice_subrange(page, at, at + WORD);
    assert(slot@.subrange(0, 8) =~= slot@);
    Some(u64_from_le_bytes(slot))
}

/// The eight bytes of a tail cursor, as they are written at the cursor
/// offset of the header page.
pub fn encode_cursor(tail: u64) -> (bytes: Vec<u8>)
    ensures
        bytes@ == spec_u64_to_le_bytes(tail),
        bytes@.len() == WORD,
{
    u64_to_le_bytes(tail)
}

/// The number of records that a scan of `file` finds from offset `from` on.
pub fn count_records(file: &[u8], from: u64) -> (count: usize)
    ensures
        count == record_count(file@, from as int),
{
    let size = file.len();
    if from > size as u64 {
        return 0;
    }
    let mut at: usize = from as usize;
    let mut count: usize = 0;
    while size - at >= WORD
        invariant
            at <= size,
            size == file@.len(),
            count <= at,
            count + record_count(file@, at as int) == record_count(file@, from as int),
        decreases size - at,
    {
        let prefix = vstd::slice::slice_subrange(file, at, at + WORD);
        let len = u64_from_le_bytes(prefix);
        let left = size - at;
        proof {
            assert(prefix@.subrange(0, 8) =~= prefix@);
            lemma_record_len(len as int);
            let next = at + record_len(len as int);
            assert(record_count(file@, at as int) == 1 + record_count(file@, next));
            if next + WORD > size {
                assert(record_count(file@, next) == 0);
            }
        }
        if len > (left - WORD) as u64 || len > (usize::MAX - 2 * WORD + 1) as u64 {
            return count + 1;
        }
        let step = crate::utils::numbers::round_to_multiple(WORD + len as usize, WORD);
        if step > left {
            return count + 1;
        }
        at = at + step;
        count = count + 1;
    }
    count
}

} // verus!
