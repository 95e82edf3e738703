//! The queued writer: the consumer side of the insert path.
//!
//! Producers push write jobs onto a bounded lock-free queue. One pass of the
//! writer drains a window of jobs, orders them by their start offset and
//! merges every run of adjacent jobs into a single chunk, so that the caller
//! seeks and writes once per run. The pass also says which tail cursor the
//! caller persists, and never lets that cursor go backwards.

use crossbeam_queue::ArrayQueue;
use std::sync::atomic::{AtomicBool, AtomicUsize, Ordering};
use std::sync::Arc;
use vstd::prelude::*;

verus! {

/// The smallest number of pops that one drain pass attempts.
pub const MIN_DRAIN: usize = 25;

/// Data used to describe where the data will be written to
#[derive(Debug)]
pub struct QueuedWriteInformation {
    /// Start and end offset of the bytes in the bucket file.
    pub seek: (u64, u64),
    /// The number of bytes to write.
    pub len: usize,
    /// The bytes to write at `seek.0`.
    pub bytes: Vec<u8>,
}

/// The mathematical value of a write job.
pub struct WriteView {
    pub seek: (u64, u64),
    pub len: usize,
    pub bytes: Seq<u8>,
}

impl View for QueuedWriteInformation {
    type V = WriteView;

    open spec fn view(&self) -> WriteView {
        WriteView { seek: self.seek, len: self.len, bytes: self.bytes@ }
    }
}

impl DeepView for QueuedWriteInformation {
    type V = WriteView;

    open spec fn deep_view(&self) -> WriteView {
        self@
    }
}

impl WriteView {
    /// A job is well formed when its end offset and its length agree with
    /// the bytes it carries.
    pub open spec fn wf(self) -> bool {
        &&& self.len == self.bytes.len()
        &&& self.seek.1 == self.seek.0 + self.bytes.len()
    }
}

impl Clone for QueuedWriteInformation {
    fn clone(&self) -> (copy: QueuedWriteInformation)
        ensures
            copy@ == self@,
    {
        QueuedWriteInformation { seek: self.seek, len: self.len, bytes: self.bytes.clone() }
    }
}

impl QueuedWriteInformation {
    /// The job that writes `bytes` at offset `start`, or `None` when the end
    /// offset does not fit in 64 bits.
    pub fn new(start: u64, bytes: Vec<u8>) -> (job: Option<QueuedWriteInformation>)
        ensures
            job is Some <==> start + bytes@.len() <= u64::MAX,
            job matches Some(j) ==> j@.wf() && j@.seek.0 == start && j@.bytes == bytes@,
    {
        let len = bytes.len();
        if len as u64 > u64::MAX - start {
            None
        } else {
            Some(QueuedWriteInformation { seek: (start, start + len as u64), len, bytes })
        }
    }
}

/// A run of adjacent jobs merged into one write.
#[derive(Debug)]
pub struct Chunk {
    /// The offset at which the chunk is written.
    pub start: u64,
    /// The bytes of the jobs of the run, in order.
    pub bytes: Vec<u8>,
}

/// The mathematical value of a chunk.
pub struct ChunkView {
    pub start: u64,
    pub bytes: Seq<u8>,
}

impl View for Chunk {
    type V = ChunkView;

    open spec fn view(&self) -> ChunkView {
        ChunkView { start: self.start, bytes: self.bytes@ }
    }
}

impl DeepView for Chunk {
    type V = ChunkView;

    open spec fn deep_view(&self) -> ChunkView {
        self@
    }
}

impl Clone for Chunk {
    fn clone(&self) -> (copy: Chunk)
        ensures
            copy@ == self@,
    {
        Chunk { start: self.start, bytes: self.bytes.clone() }
    }
}

impl ChunkView {
    /// The offset just behind the last byte of the chunk.
    pub open spec fn end(self) -> int {
        self.start + self.bytes.len()
    }
}

/// The order in which jobs are written: by start offset, then by end offset.
pub open spec fn seek_le(a: (u64, u64), b: (u64, u64)) -> bool {
    a.0 < b.0 || (a.0 == b.0 && a.1 <= b.1)
}

/// Whether every job stands before the jobs that follow it.
pub open spec fn sorted_by_seek(jobs: Seq<WriteView>) -> bool {
    forall|i: int, j: int| 0 <= i <= j < jobs.len() ==> seek_le(jobs[i].seek, jobs[j].seek)
}

/// The chunks of a list of jobs, taken in the order given: a job that starts
/// where the job before it ends extends the running chunk, any other job
/// closes the running chunk and opens a new one at its own start.
pub open spec fn coalesced(jobs: Seq<WriteView>) -> Seq<ChunkView>
    decreases jobs.len(),
{
    if jobs.len() == 0 {
        Seq::empty()
    } else {
        let before = coalesced(jobs.drop_last());
        let job = jobs.last();
        if jobs.len() >= 2 && jobs[jobs.len() - 2].seek.1 == job.seek.0 {
            before.drop_last().push(
                ChunkView { start: before.last().start, bytes: before.last().bytes + job.bytes },
            )
        } else {
            before.push(ChunkView { start: job.seek.0, bytes: job.bytes })
        }
    }
}

/// The bytes of all jobs, one after the other.
pub open spec fn job_bytes(jobs: Seq<WriteView>) -> Seq<u8>
    decreases jobs.len(),
{
    if jobs.len() == 0 {
        Seq::empty()
    } else {
        job_bytes(jobs.drop_last()) + jobs.last().bytes
    }
}

/// The bytes of all chunks, one after the other.
pub open spec fn chunk_bytes(chunks: Seq<ChunkView>) -> Seq<u8>
    decreases chunks.len(),
{
    if chunks.len() == 0 {
        Seq::empty()
    } else {
        chunk_bytes(chunks.drop_last()) + chunks.last().bytes
    }
}

/// The number of places where a job does not start at the end of the job
/// before it.
pub open spec fn gaps(jobs: Seq<WriteView>) -> nat
    decreases jobs.len(),
{
    if jobs.len() <= 1 {
        0
    } else {
        let before = gaps(jobs.drop_last());
        if jobs[jobs.len() - 2].seek.1 == jobs.last().seek.0 {
            before
        } else {
            before + 1
        }
    }
}

/// The highest end offset among the chunks, 0 where there is none.
pub open spec fn highest_end(chunks: Seq<ChunkView>) -> int
    decreases chunks.len(),
{
    if chunks.len() == 0 {
        0
    } else {
        let before = highest_end(chunks.drop_last());
        if chunks.last().end() > before {
            chunks.last().end()
        } else {
            before
        }
    }
}

/// A file after `bytes` were written at offset `at`: the file grows, filled
/// with zeros, where the write reaches beyond its end. A write of no bytes
/// leaves the file as it is.
pub open spec fn write_at(file: Seq<u8>, at: int, bytes: Seq<u8>) -> Seq<u8>
    recommends
        0 <= at,
{
    if bytes.len() == 0 {
        file
    } else {
        let size = if at + bytes.len() > file.len() {
            at + bytes.len()
        } else {
            file.len() as int
        };
        Seq::new(
            size as nat,
            |i: int|
                if at <= i < at + bytes.len() {
                    bytes[i - at]
                } else if i < file.len() {
                    file[i]
                } else {
                    0u8
                },
        )
    }
}

/// A file after every job was written at its start offset, in the order
/// given.
pub open spec fn apply_jobs(file: Seq<u8>, jobs: Seq<WriteView>) -> Seq<u8>
    decreases jobs.len(),
{
    if jobs.len() == 0 {
        file
    } else {
        write_at(apply_jobs(file, jobs.drop_last()), jobs.last().seek.0 as int, jobs.last().bytes)
    }
}

/// A file after every chunk was written at its start offset, in the order
/// given.
pub open spec fn apply_chunks(file: Seq<u8>, chunks: Seq<ChunkView>) -> Seq<u8>
    decreases chunks.len(),
{
    if chunks.len() == 0 {
        file
    } else {
        write_at(
            apply_chunks(file, chunks.drop_last()),
            chunks.last().start as int,
            chunks.last().bytes,
        )
    }
}

/// Coalescing a non-empty list leaves at least one chunk.
pub proof fn lemma_coalesced_nonempty(jobs: Seq<WriteView>)
    requires
        jobs.len() > 0,
    ensures
        coalesced(jobs).len() > 0,
    decreases jobs.len(),
{
    if jobs.len() >= 2 {
        lemma_coalesced_nonempty(jobs.drop_last());
    }
}

/// Coalescing loses and reorders nothing: the chunks hold the bytes of the
/// jobs, in the order of the jobs.
pub proof fn lemma_coalesced_keeps_bytes(jobs: Seq<WriteView>)
    ensures
        chunk_bytes(coalesced(jobs)) == job_bytes(jobs),
    decreases jobs.len(),
{
    if jobs.len() > 0 {
        let before = coalesced(jobs.drop_last());
        let job = jobs.last();
        lemma_coalesced_keeps_bytes(jobs.drop_last());
        if jobs.len() >= 2 && jobs[jobs.len() - 2].seek.1 == job.seek.0 {
            lemma_coalesced_nonempty(jobs.drop_last());
            let merged = ChunkView {
                start: before.last().start,
                bytes: before.last().bytes + job.bytes,
            };
            let chunks = before.drop_last().push(merged);
            assert(chunks.drop_last() =~= before.drop_last());
            assert(chunk_bytes(chunks) =~= chunk_bytes(before.drop_last()) + (before.last().bytes
                + job.bytes));
            assert(chunk_bytes(before) =~= chunk_bytes(before.drop_last()) + before.last().bytes);
            assert(chunk_bytes(chunks) =~= chunk_bytes(before) + job.bytes);
        } else {
            let chunks = before.push(ChunkView { start: job.seek.0, bytes: job.bytes });
            assert(chunks.drop_last() =~= before);
        }
    }
}

/// There is one chunk more than there are gaps between the jobs.
pub proof fn lemma_coalesced_count(jobs: Seq<WriteView>)
    requires
        jobs.len() > 0,
    ensures
        coalesced(jobs).len() == gaps(jobs) + 1,
    decreases jobs.len(),
{
    if jobs.len() >= 2 {
        lemma_coalesced_count(jobs.drop_last());
    } else {
        assert(coalesced(jobs.drop_last()) =~= Seq::<ChunkView>::empty());
    }
}

/// Two writes that touch end to start are one write of the joined bytes.
pub proof fn lemma_write_at_adjacent(file: Seq<u8>, at: int, first: Seq<u8>, second: Seq<u8>)
    requires
        0 <= at,
    ensures
        write_at(write_at(file, at, first), at + first.len(), second) == write_at(
            file,
            at,
            first + second,
        ),
{
    assert(write_at(write_at(file, at, first), at + first.len(), second) =~= write_at(
        file,
        at,
        first + second,
    ));
}

/// In a list of well-formed jobs, the last chunk ends where the last job
/// ends, and starts no later than it.
pub proof fn lemma_coalesced_last_end(jobs: Seq<WriteView>)
    requires
        jobs.len() > 0,
        forall|i: int| 0 <= i < jobs.len() ==> (#[trigger] jobs[i]).wf(),
    ensures
        coalesced(jobs).len() > 0,
        coalesced(jobs).last().end() == jobs.last().seek.1,
        coalesced(jobs).last().bytes.len() >= jobs.last().bytes.len(),
    decreases jobs.len(),
{
    lemma_coalesced_nonempty(jobs);
    if jobs.len() >= 2 {
        lemma_coalesced_last_end(jobs.drop_last());
        assert(jobs.drop_last().last() == jobs[jobs.len() - 2]);
    }
}

/// Writing the chunks changes a file exactly as writing the jobs one by one
/// does, where the jobs are well formed.
pub proof fn lemma_chunks_write_what_jobs_write(file: Seq<u8>, jobs: Seq<WriteView>)
    requires
        forall|i: int| 0 <= i < jobs.len() ==> (#[trigger] jobs[i]).wf(),
    ensures
        apply_chunks(file, coalesced(jobs)) == apply_jobs(file, jobs),
    decreases jobs.len(),
{
    if jobs.len() > 0 {
        let before = coalesced(jobs.drop_last());
        let job = jobs.last();
        lemma_chunks_write_what_jobs_write(file, jobs.drop_last());
        if jobs.len() >= 2 && jobs[jobs.len() - 2].seek.1 == job.seek.0 {
            lemma_coalesced_last_end(jobs.drop_last());
            assert(jobs.drop_last().last() == jobs[jobs.len() - 2]);
            let merged = ChunkView {
                start: before.last().start,
                bytes: before.last().bytes + job.bytes,
            };
            let chunks = before.drop_last().push(merged);
            assert(chunks.drop_last() =~= before.drop_last());
            let base = apply_chunks(file, before.drop_last());
            lemma_write_at_adjacent(
                base,
                before.last().start as int,
                before.last().bytes,
                job.bytes,
            );
        } else {
            let chunks = before.push(ChunkView { start: job.seek.0, bytes: job.bytes });
            assert(chunks.drop_last() =~= before);
        }
    }
}

/// The jobs of a pass in the order in which they are written are as many
/// as were drained.
pub proof fn lemma_write_order_len(sorted: Seq<WriteView>, jobs: Seq<WriteView>)
    requires
        is_write_order(sorted, jobs),
    ensures
        sorted.len() == jobs.len(),
{
    vstd::seq_lib::to_multiset_len(sorted);
    vstd::seq_lib::to_multiset_len(jobs);
}

/// Whether `sorted` holds the jobs of `jobs`, each as often as `jobs` does,
/// in the order in which they are written.
pub open spec fn is_write_order(sorted: Seq<WriteView>, jobs: Seq<WriteView>) -> bool {
    &&& sorted.to_multiset() == jobs.to_multiset()
    &&& sorted_by_seek(sorted)
}

/// The cursor that a pass persists: the highest end offset of its chunks
/// where that lies beyond the cursor persisted before, else none.
pub open spec fn advanced_cursor(tail: u64, end: int) -> Option<u64> {
    if tail < end <= u64::MAX {
        Some(end as u64)
    } else {
        None
    }
}

/// The number of pops that a pass attempts on a queue that holds `queued`
/// jobs.
pub open spec fn drain_window(queued: nat) -> nat {
    if queued > MIN_DRAIN {
        queued
    } else {
        MIN_DRAIN as nat
    }
}

#[verifier::external_type_specification]
#[verifier::external_body]
#[verifier::reject_recursive_types(T)]
pub struct ExArrayQueue<T>(ArrayQueue<T>);

/// The capacity that a queue was made with.
pub uninterp spec fn queue_capacity(q: ArrayQueue<QueuedWriteInformation>) -> nat;

/// `ArrayQueue::new` of crossbeam_queue: a queue of the given capacity. It
/// panics on a capacity of zero, and on one whose next power of two does not
/// fit in a `usize`.
#[verifier::external_body]
pub(crate) fn new_queue(capacity: usize) -> (q: ArrayQueue<QueuedWriteInformation>)
    requires
        0 < capacity <= isize::MAX,
    ensures
        queue_capacity(q) == capacity,
{
    ArrayQueue::new(capacity)
}

/// `ArrayQueue::push` of crossbeam_queue: a full queue hands the job back as
/// the error. Whether the queue is full depends on the other threads.
#[verifier::external_body]
pub(crate) fn push_job(q: &ArrayQueue<QueuedWriteInformation>, job: QueuedWriteInformation) -> (r:
    Result<(), QueuedWriteInformation>)
    ensures
        r matches Err(back) ==> back == job,
{
    q.push(job)
}

/// `ArrayQueue::pop` of crossbeam_queue: a job of the queue, or `None` where
/// it was found empty.
#[verifier::external_body]
fn pop_job(q: &ArrayQueue<QueuedWriteInformation>) -> (r: Option<QueuedWriteInformation>) {
    q.pop()
}

/// `ArrayQueue::len` of crossbeam_queue: the number of jobs found in the
/// queue, which other threads may have changed by the time it is returned.
#[verifier::external_body]
fn queue_len(q: &ArrayQueue<QueuedWriteInformation>) -> (n: usize) {
    q.len()
}

/// `Arc::clone` of std: a second handle to the same value.
#[verifier::external_body]
pub(crate) fn share<T>(handle: &Arc<T>) -> (copy: Arc<T>)
    ensures
        copy == *handle,
{
    Arc::clone(handle)
}

/// `sort_unstable_by_key` of std on the `seek` pair: the same jobs, ordered
/// by start offset and then by end offset. Jobs with equal pairs come in any
/// order.
#[verifier::external_body]
fn sort_by_seek(jobs: &mut Vec<QueuedWriteInformation>)
    ensures
        is_write_order(final(jobs).deep_view(), old(jobs).deep_view()),
{
    jobs.sort_unstable_by_key(|job| job.seek);
}

/// Merges every run of adjacent jobs into one chunk, in the order given.
pub fn coalesce(jobs: &Vec<QueuedWriteInformation>) -> (chunks: Vec<Chunk>)
    ensures
        chunks.deep_view() == coalesced(jobs.deep_view()),
{
    let mut chunks: Vec<Chunk> = Vec::new();
    if jobs.len() == 0 {
        assert(chunks.deep_view() =~= coalesced(jobs.deep_view()));
        return chunks;
    }
    let ghost all = jobs.deep_view();
    let mut start: u64 = jobs[0].seek.0;
    let mut bytes: Vec<u8> = jobs[0].bytes.clone();
    let mut last_end: u64 = jobs[0].seek.1;
    let mut i: usize = 1;
    proof {
        let first = all.subrange(0, 1);
        assert(bytes@ =~= jobs[0].bytes@);
        assert(first.last() == jobs[0]@);
        assert(first.drop_last() =~= Seq::<WriteView>::empty());
        assert(coalesced(first.drop_last()) =~= Seq::<ChunkView>::empty());
        assert(coalesced(first) =~= seq![ChunkView { start, bytes: bytes@ }]);
        assert(chunks.deep_view().push(ChunkView { start, bytes: bytes@ }) =~= seq![
            ChunkView { start, bytes: bytes@ },
        ]);
    }
    while i < jobs.len()
        invariant
            1 <= i <= jobs.len(),
            all == jobs.deep_view(),
            last_end == all[i - 1].seek.1,
            chunks.deep_view().push(ChunkView { start, bytes: bytes@ }) == coalesced(
                all.subrange(0, i as int),
            ),
        decreases jobs.len() - i,
    {
        let job = &jobs[i];
        let ghost before = all.subrange(0, i as int);
        let ghost upto = all.subrange(0, i + 1);
        let ghost running = ChunkView { start, bytes: bytes@ };
        let ghost closed = chunks.deep_view();
        proof {
            assert(upto.drop_last() =~= before);
            assert(upto.last() == job@);
            assert(upto[upto.len() - 2] == all[i - 1]);
            assert(closed.push(running).drop_last() =~= closed);
        }
        if job.seek.0 == last_end {
            let mut more = job.bytes.clone();
            bytes.append(&mut more);
            proof {
                assert(more@ =~= Seq::<u8>::empty());
                assert(bytes@ =~= running.bytes + job@.bytes);
            }
        } else {
            chunks.push(Chunk { start, bytes });
            start = job.seek.0;
            bytes = job.bytes.clone();
            proof {
                assert(chunks.deep_view() =~= closed.push(running));
            }
        }
        last_end = job.seek.1;
        i += 1;
    }
    proof {
        assert(all.subrange(0, i as int) =~= all);
    }
    let ghost closed = chunks.deep_view();
    chunks.push(Chunk { start, bytes });
    proof {
        assert(chunks.deep_view() =~= closed.push(ChunkView { start, bytes: bytes@ }));
    }
    chunks
}

/// The highest end offset among the chunks, 0 where there is none.
pub fn highest_chunk_end(chunks: &Vec<Chunk>) -> (end: u128)
    ensures
        end == highest_end(chunks.deep_view()),
{
    let mut end: u128 = 0;
    let mut i: usize = 0;
    proof {
        assert(chunks.deep_view().subrange(0, 0) =~= Seq::<ChunkView>::empty());
    }
    while i < chunks.len()
        invariant
            i <= chunks.len(),
            end == highest_end(chunks.deep_view().subrange(0, i as int)),
            end <= u64::MAX + usize::MAX,
        decreases chunks.len() - i,
    {
        let ghost upto = chunks.deep_view().subrange(0, i + 1);
        proof {
            assert(upto.drop_last() =~= chunks.deep_view().subrange(0, i as int));
            assert(upto.last() == chunks[i as int]@);
        }
        let here: u128 = chunks[i].start as u128 + chunks[i].bytes.len() as u128;
        if here > end {
            end = here;
        }
        i += 1;
    }
    proof {
        assert(chunks.deep_view().subrange(0, i as int) =~= chunks.deep_view());
    }
    end
}

/// The number of pops that a pass attempts on a queue that holds `queued`
/// jobs: as many as are queued, but at least `MIN_DRAIN`.
pub fn drain_limit(queued: usize) -> (limit: usize)
    ensures
        limit == drain_window(queued as nat),
{
    if queued > MIN_DRAIN {
        queued
    } else {
        MIN_DRAIN
    }
}

/// Whether the writer goes on: until it was told to exit and the queue is
/// empty.
pub fn keep_running(should_exit: bool, queued: usize) -> (go_on: bool)
    ensures
        go_on == (!should_exit || queued > 0),
{
    !should_exit || queued > 0
}

/// What one pass of the writer asks its caller to do.
#[derive(Debug)]
pub struct DrainPlan {
    /// The chunks to write, each at its start offset, in this order.
    pub chunks: Vec<Chunk>,
    /// The tail cursor to persist after the chunks, if it advances.
    pub cursor: Option<u64>,
    /// The number of jobs that the chunks hold.
    pub items: usize,
}

/// The next thing for the thread that runs the writer to do.
#[derive(Debug)]
pub enum WriterAction {
    /// The writer was told to exit and the queue is empty: leave the loop.
    Stop,
    /// Nothing was queued: wait and poll again.
    Idle,
    /// Write the chunks of the plan, persist its cursor, then report the
    /// pass as finished.
    Write(DrainPlan),
}

/// Information about the writer thread
#[derive(Debug)]
pub struct WriterThread {
    pub should_exit: Arc<AtomicBool>,
    pub q: Arc<ArrayQueue<QueuedWriteInformation>>,

    // Debugging
    pub items: Arc<AtomicUsize>,
}

impl Clone for WriterThread {
    fn clone(&self) -> (copy: WriterThread)
        ensures
            copy == *self,
    {
        WriterThread {
            should_exit: share(&self.should_exit),
            q: share(&self.q),
            items: share(&self.items),
        }
    }
}

impl WriterThread {
    /// Tells the writer to drain what is queued and then to stop.
    pub fn request_exit(&self) {
        self.should_exit.store(true, Ordering::SeqCst);
    }

    /// The number of jobs of the pass that the writer finished last; 0 once
    /// it found the queue empty.
    pub fn pending(&self) -> usize {
        self.items.load(Ordering::SeqCst)
    }
}

/// A threaded writer which chunks for faster writing
///
/// Chunks together multiple sequential buffers into one bigger buffer
pub struct QueuedWriter {
    q: Arc<ArrayQueue<QueuedWriteInformation>>,
    should_exit: Arc<AtomicBool>,
    items: Arc<AtomicUsize>,
    tail: u64,
}

impl QueuedWriter {
    /// The tail cursor that the writer persisted last.
    pub closed spec fn tail(&self) -> u64 {
        self.tail
    }

    /// The queue that the writer drains.
    pub closed spec fn queue(&self) -> ArrayQueue<QueuedWriteInformation> {
        *self.q
    }

    /// Creates a new QueuedWriter over the queue `q`, whose file holds the
    /// tail cursor `tail`, and the handle through which others watch and
    /// stop it.
    pub fn new(
        q: Arc<ArrayQueue<QueuedWriteInformation>>,
        should_exit: Arc<AtomicBool>,
        tail: u64,
    ) -> (r: (QueuedWriter, WriterThread))
        ensures
            r.0.tail() == tail,
            r.0.queue() == *q,
            *r.1.q == *q,
            *r.1.should_exit == *should_exit,
    {
        let items = Arc::new(AtomicUsize::new(0));
        (
            QueuedWriter {
                q: share(&q),
                should_exit: share(&should_exit),
                items: share(&items),
                tail,
            },
            WriterThread { should_exit, q, items },
        )
    }

    /// The tail cursor that the writer persisted last.
    pub fn persisted_tail(&self) -> (tail: u64)
        ensures
            tail == self.tail(),
    {
        self.tail
    }

    /// Whether the writer goes on: it looks at the exit flag and at the
    /// queue as they are at this moment.
    pub fn is_running(&self) -> bool {
        let should_exit = self.should_exit.load(Ordering::SeqCst);
        keep_running(should_exit, queue_len(&self.q))
    }

    /// Takes up to `limit` jobs off the queue.
    pub fn drain(&self, limit: usize) -> (jobs: Vec<QueuedWriteInformation>)
        ensures
            jobs@.len() <= limit,
    {
        let mut jobs: Vec<QueuedWriteInformation> = Vec::new();
        let mut tries: usize = 0;
        while tries < limit
            invariant
                jobs@.len() <= tries <= limit,
            decreases limit - tries,
        {
            match pop_job(&self.q) {
                Some(job) => {
                    jobs.push(job);
                },
                None => {},
            }
            tries += 1;
        }
        jobs
    }

    /// Plans the writes of one pass over the jobs drained: orders them,
    /// merges adjacent runs into chunks, and advances the tail cursor to the
    /// highest end offset written, if that lies beyond the cursor so far.
    pub fn plan(&mut self, jobs: Vec<QueuedWriteInformation>) -> (plan: DrainPlan)
        ensures
            exists|sorted: Seq<WriteView>|
                #![trigger coalesced(sorted)]
                is_write_order(sorted, jobs.deep_view()) && plan.chunks.deep_view() == coalesced(
                    sorted,
                ),
            plan.items == jobs@.len(),
            plan.cursor == advanced_cursor(
                old(self).tail(),
                highest_end(plan.chunks.deep_view()),
            ),
            final(self).tail() == match plan.cursor {
                Some(cursor) => cursor,
                None => old(self).tail(),
            },
            final(self).tail() >= old(self).tail(),
            final(self).queue() == old(self).queue(),
    {
        let mut jobs = jobs;
        let items = jobs.len();
        sort_by_seek(&mut jobs);
        let chunks = coalesce(&jobs);
        let end = highest_chunk_end(&chunks);
        let cursor = if end > self.tail as u128 && end <= u64::MAX as u128 {
            let cursor = end as u64;
            self.tail = cursor;
            Some(cursor)
        } else {
            None
        };
        DrainPlan { chunks, cursor, items }
    }

    /// One pass of the writer: stops when told to and nothing is queued,
    /// else drains a window of jobs and plans their writes.
    pub fn poll(&mut self) -> (action: WriterAction)
        ensures
            final(self).tail() >= old(self).tail(),
            final(self).queue() == old(self).queue(),
            action matches WriterAction::Write(plan) ==> {
                &&& plan.items > 0
                &&& exists|sorted: Seq<WriteView>|
                    #![trigger coalesced(sorted)]
                    sorted_by_seek(sorted) && sorted.len() == plan.items
                        && plan.chunks.deep_view() == coalesced(sorted)
                &&& plan.cursor == advanced_cursor(
                    old(self).tail(),
                    highest_end(plan.chunks.deep_view()),
                )
                &&& final(self).tail() == match plan.cursor {
                    Some(cursor) => cursor,
                    None => old(self).tail(),
                }
            },
            !(action is Write) ==> final(self).tail() == old(self).tail(),
    {
        if !self.is_running() {
            return WriterAction::Stop;
        }
        let limit = drain_limit(queue_len(&self.q));
        let jobs = self.drain(limit);
        let ghost drained = jobs.deep_view();
        let action = self.conclude(jobs);
        proof {
            if action is Write {
                let plan = action->Write_0;
                let sorted = choose|sorted: Seq<WriteView>|
                    #![trigger coalesced(sorted)]
                    is_write_order(sorted, drained) && plan.chunks.deep_view() == coalesced(
                        sorted,
                    );
                lemma_write_order_len(sorted, drained);
            }
        }
        action
    }

    /// Reports that the chunks of a pass were written: shows the number of
    /// its jobs to those who wait for the writer.
    pub fn finish(&self, items: usize) {
        self.items.store(items, Ordering::SeqCst);
    }

    /// What a pass does with the jobs that it drained: where there are
    /// none it shows that nothing is pending and asks to wait, else it plans
    /// their writes.
    pub fn conclude(&mut self, jobs: Vec<QueuedWriteInformation>) -> (action: WriterAction)
        ensures
            jobs@.len() == 0 ==> action is Idle && final(self).tail() == old(self).tail(),
            jobs@.len() > 0 ==> action is Write,
            action matches WriterAction::Write(plan) ==> is_planned(
                old(self).tail(),
                jobs.deep_view(),
                plan,
                final(self).tail(),
            ),
            final(self).queue() == old(self).queue(),
    {
        if jobs.len() == 0 {
            self.items.store(0, Ordering::SeqCst);
            WriterAction::Idle
        } else {
            WriterAction::Write(self.plan(jobs))
        }
    }
}

/// Whether `plan` is the plan of a pass over `jobs` by a writer whose
/// persisted cursor was `tail` and is `new_tail` afterwards: its chunks are
/// those of the jobs in the order in which they are written, it counts the
/// jobs, and its cursor is the highest end offset of the chunks where that
/// lies beyond `tail`.
pub open spec fn is_planned(tail: u64, jobs: Seq<WriteView>, plan: DrainPlan, new_tail: u64) -> bool {
    &&& exists|sorted: Seq<WriteView>|
        #![trigger coalesced(sorted)]
        is_write_order(sorted, jobs) && plan.chunks.deep_view() == coalesced(sorted)
    &&& plan.items == jobs.len()
    &&& plan.cursor == advanced_cursor(tail, highest_end(plan.chunks.deep_view()))
    &&& new_tail == match plan.cursor {
        Some(cursor) => cursor,
        None => tail,
    }
}

} // verus!
