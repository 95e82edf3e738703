//! A bucket: one file that holds the documents of one schema.
//!
//! The bucket decides what is written where. It builds the header page of a
//! new file and reads the one of an old file, frames each document as a
//! record, reserves the offsets of the record on the shared tail offset and
//! hands the record to the queued writer. Reading and writing the file is
//! left to the caller.

pub mod config;
pub mod descriptor;
pub mod document;
pub mod layout;
pub mod log;
pub mod reader;
pub mod writer;

use crate::error::DbError;
use descriptor::{
    schema_decoding, schema_encoding, BucketDescription, BucketDesriptor,
};
use document::field::descriptor::FieldDescriptorView;
use document::{document_encoding, Document};
use layout::{
    build_header_page, count_records, cursor_in, encode_record, header_page, lemma_header_page,
    read_cursor, read_schema, record_bytes, record_count, record_len, schema_fits, schema_in,
};
use crossbeam_queue::ArrayQueue;
use std::sync::atomic::{AtomicBool, AtomicU64, Ordering};
use std::sync::Arc;
use vstd::prelude::*;
use writer::queued::{
    new_queue, push_job, queue_capacity, share, QueuedWriteInformation, QueuedWriter,
    WriterThread,
};

verus! {

/// A minimum set of space required to initialize a bucket
///
/// The database does not need this much space to initialize a bucket.
/// However, to store any data with meaning it's good to have it.
pub const MIN_FREE_BYTES: u64 = 1_048_576;

/// The number of write jobs that the queue of a bucket holds.
pub const QUEUE_CAPACITY: usize = 10_000;

/// The number of bytes of a document id.
pub const ID_SIZE: usize = 16;

/// What a header page holds: the schema and the tail cursor.
pub open spec fn page_contents(page: Seq<u8>, page_size: int) -> Option<
    (Seq<FieldDescriptorView>, u64),
> {
    match (schema_in(page), cursor_in(page, page_size)) {
        (Some(encoded), Some(tail)) => match schema_decoding(encoded) {
            Some(schema) => Some((schema, tail)),
            None => None,
        },
        _ => None,
    }
}

/// Whether `r` is what the check before the initialisation of a bucket
/// gives: `InsufficientSpace` where less than the minimum is free, else
/// `SchemaMissing` where no schema is given, else the schema.
pub open spec fn is_admitted(
    free_space: u64,
    descriptor: Option<BucketDescription>,
    r: Result<BucketDescription, DbError>,
) -> bool {
    match r {
        Ok(schema) => free_space >= MIN_FREE_BYTES && descriptor == Some(schema),
        Err(DbError::InsufficientSpace) => free_space < MIN_FREE_BYTES,
        Err(DbError::SchemaMissing) => free_space >= MIN_FREE_BYTES && descriptor is None,
        Err(_) => false,
    }
}

/// The header page of a new bucket, where its schema can be encoded and has
/// room in the page: the tail cursor is the size of the page.
pub open spec fn first_page(schema: Seq<FieldDescriptorView>, page_size: u64) -> Option<Seq<u8>> {
    match schema_encoding(schema) {
        Some(encoded) => if schema_fits(encoded.len() as int, page_size as int) && page_size
            <= usize::MAX {
            Some(header_page(encoded, page_size as int, page_size))
        } else {
            None
        },
        None => None,
    }
}

/// Whether `r` is what loading a header page gives: the schema and the tail
/// cursor that the page holds, `IoFailure` where the page is too short,
/// `CodecFailure` where its bytes are no schema.
pub open spec fn is_page_loaded(
    page: Seq<u8>,
    page_size: int,
    r: Result<(BucketDescription, u64), DbError>,
) -> bool {
    match r {
        Ok((schema, tail)) => page_contents(page, page_size) == Some((schema@, tail)),
        Err(DbError::IoFailure(_)) => schema_in(page) is None || cursor_in(page, page_size)
            is None,
        Err(DbError::CodecFailure(_)) => schema_in(page) is Some && cursor_in(page, page_size)
            is Some && page_contents(page, page_size) is None,
        Err(_) => false,
    }
}

/// The record of a document, where the document can be encoded and the
/// record fits in memory.
pub open spec fn document_record(document: Seq<document::field::FieldView>) -> Option<Seq<u8>> {
    match document_encoding(document) {
        Some(payload) => if record_len(payload.len() as int) <= usize::MAX {
            Some(record_bytes(payload))
        } else {
            None
        },
        None => None,
    }
}

/// Whether `r` is what an insert gives that was handed the offset `start`
/// for a record of `len` bytes: `IoFailure` where the record would end
/// beyond the last offset of a file, `QueueFull` where the queue took no
/// job, else the end offset of the record and an id of zeros.
pub open spec fn is_placed(start: u64, len: nat, r: Result<(u64, [u8; 16]), DbError>) -> bool {
    match r {
        Ok((end, id)) => end == start + len && id@ == Seq::new(ID_SIZE as nat, |i: int| 0u8),
        Err(DbError::IoFailure(_)) => start + len > u64::MAX,
        Err(DbError::QueueFull) => start + len <= u64::MAX,
        Err(_) => false,
    }
}

/// A new bucket starts with the header page that holds its schema and, as
/// the tail cursor, the size of the page: loading the page gives both back.
pub proof fn lemma_first_page_loads(schema: Seq<FieldDescriptorView>, page_size: u64)
    requires
        first_page(schema, page_size) is Some,
        schema_decoding(schema_encoding(schema)->0) == Some(schema),
    ensures
        first_page(schema, page_size)->0.len() == page_size,
        page_contents(first_page(schema, page_size)->0, page_size as int) == Some(
            (schema, page_size),
        ),
{
    lemma_header_page(schema_encoding(schema)->0, page_size as int, page_size);
}

/// Whether two handles are handles to one bucket: they agree in the name,
/// the page size, the schema and the queue.
pub open spec fn same_bucket(a: Bucket, b: Bucket) -> bool {
    &&& a.spec_name() == b.spec_name()
    &&& a.spec_page_size() == b.spec_page_size()
    &&& a.schema() == b.schema()
    &&& a.queue() == b.queue()
}

/// A bucket defines a datastructure, it contains a whole database within it
pub struct Bucket {
    name: String,
    page_size: u64,
    descriptor: BucketDescription,
    writer_thread: WriterThread,
    atomic_offset: Arc<AtomicU64>,
}

impl Clone for Bucket {
    fn clone(&self) -> (copy: Bucket)
        ensures
            same_bucket(copy, *self),
    {
        Bucket {
            name: self.name.clone(),
            page_size: self.page_size,
            descriptor: self.descriptor.clone(),
            writer_thread: self.writer_thread.clone(),
            atomic_offset: share(&self.atomic_offset),
        }
    }
}

impl BucketDesriptor for Bucket {
    fn get_description(&self) -> (schema: BucketDescription)
        ensures
            schema@ == self.schema(),
    {
        self.descriptor.clone()
    }
}

impl Bucket {
    /// The name of the bucket.
    pub closed spec fn spec_name(&self) -> Seq<char> {
        self.name@
    }

    /// The size of the header page of the bucket.
    pub closed spec fn spec_page_size(&self) -> u64 {
        self.page_size
    }

    /// The schema of the bucket.
    pub closed spec fn schema(&self) -> Seq<FieldDescriptorView> {
        self.descriptor@
    }

    /// The queue on which the bucket hands its records to the writer.
    pub closed spec fn queue(&self) -> ArrayQueue<QueuedWriteInformation> {
        *self.writer_thread.q
    }

    /// Checks if there are enough bytes of free space to run a database,
    /// and if the descriptor is defined.
    pub fn initialize(free_space: u64, descriptor: Option<BucketDescription>) -> (r: Result<
        BucketDescription,
        DbError,
    >)
        ensures
            is_admitted(free_space, descriptor, r),
    {
        if free_space < MIN_FREE_BYTES {
            return Err(DbError::InsufficientSpace);
        }
        match descriptor {
            Some(schema) => Ok(schema),
            None => Err(DbError::SchemaMissing),
        }
    }

    /// ### Initializes a page with the following structure
    ///
    /// `Length of BucketDescription` as u16
    ///
    /// `BucketDescription`
    ///
    /// `Rows` are written below this
    pub fn initialize_page(descriptor: &BucketDescription, page_size: u64) -> (r: Result<
        Vec<u8>,
        DbError,
    >)
        ensures
            r is Ok <==> first_page(descriptor@, page_size) is Some,
            r matches Ok(page) ==> first_page(descriptor@, page_size) == Some(page@),
            r matches Ok(page) ==> page@.len() == page_size && page_contents(
                page@,
                page_size as int,
            ) == Some((descriptor@, page_size)),
            r matches Err(e) ==> e is CodecFailure,
    {
        let encoded = descriptor.serialize()?;
        match build_header_page(encoded.as_slice(), page_size, page_size) {
            Some(page) => {
                proof {
                    lemma_first_page_loads(descriptor@, page_size);
                }
                Ok(page)
            },
            None => Err(
                DbError::CodecFailure("the schema has no room in the header page".to_string()),
            ),
        }
    }

    /// Load an already existing page from a bucket
    pub fn load_page(page: &[u8], page_size: u64) -> (r: Result<(BucketDescription, u64), DbError>)
        ensures
            r is Ok <==> page_contents(page@, page_size as int) is Some,
            is_page_loaded(page@, page_size as int, r),
    {
        let encoded = match read_schema(page) {
            Some(encoded) => encoded,
            None => {
                return Err(DbError::IoFailure("the header page is too short".to_string()));
            },
        };
        let tail = match read_cursor(page, page_size) {
            Some(tail) => tail,
            None => {
                return Err(DbError::IoFailure("the header page is too short".to_string()));
            },
        };
        let schema = BucketDescription::deserialize(encoded)?;
        Ok((schema, tail))
    }

    /// The bucket `name` with a schema and a tail offset as given, and the
    /// writer that drains its queue.
    pub fn open(name: &str, page_size: u64, descriptor: BucketDescription, tail: u64) -> (r: (
        Bucket,
        QueuedWriter,
    ))
        ensures
            r.0.spec_name() == name@,
            r.0.spec_page_size() == page_size,
            r.0.schema() == descriptor@,
            queue_capacity(r.0.queue()) == QUEUE_CAPACITY,
            r.1.queue() == r.0.queue(),
            r.1.tail() == tail,
    {
        let queue = Arc::new(new_queue(QUEUE_CAPACITY));
        let should_exit = Arc::new(AtomicBool::new(false));
        let (writer, writer_thread) = QueuedWriter::new(queue, should_exit, tail);
        let bucket = Bucket {
            name: name.to_string(),
            page_size,
            descriptor,
            writer_thread,
            atomic_offset: Arc::new(AtomicU64::new(tail)),
        };
        (bucket, writer)
    }

    /// Creates a new bucket and initializes it with it's required data structure
    ///
    /// With `should_init` the bucket is new: the free space and the schema
    /// are checked, and the header page to write comes back with the bucket.
    /// Without it the bucket is read from the header page `page`.
    pub fn new(
        name: &str,
        page_size: u64,
        should_init: bool,
        descriptor: Option<BucketDescription>,
        free_space: u64,
        page: &[u8],
    ) -> (r: Result<(Bucket, QueuedWriter, Option<Vec<u8>>), DbError>)
        ensures
            should_init ==> (r is Ok <==> free_space >= MIN_FREE_BYTES && descriptor is Some
                && first_page(descriptor->0@, page_size) is Some),
            should_init && free_space < MIN_FREE_BYTES ==> r matches Err(
                DbError::InsufficientSpace,
            ),
            should_init && free_space >= MIN_FREE_BYTES && descriptor is None ==> r matches Err(
                DbError::SchemaMissing,
            ),
            should_init && free_space >= MIN_FREE_BYTES && descriptor is Some && first_page(
                descriptor->0@,
                page_size,
            ) is None ==> r matches Err(DbError::CodecFailure(_)),
            should_init ==> (r matches Ok(opened) ==> opened.0.schema() == descriptor->0@
                && opened.1.tail() == page_size && opened.2 is Some && first_page(
                descriptor->0@,
                page_size,
            ) == Some(opened.2->0@)),
            !should_init ==> (r is Ok <==> page_contents(page@, page_size as int) is Some),
            !should_init ==> (r matches Err(e) ==> is_page_loaded(
                page@,
                page_size as int,
                Err(e),
            )),
            !should_init ==> (r matches Ok(opened) ==> page_contents(page@, page_size as int)
                == Some((opened.0.schema(), opened.1.tail())) && opened.2 is None),
            r matches Ok(opened) ==> opened.0.spec_name() == name@ && opened.0.spec_page_size()
                == page_size && queue_capacity(opened.0.queue()) == QUEUE_CAPACITY
                && opened.1.queue() == opened.0.queue(),
    {
        if should_init {
            let schema = Bucket::initialize(free_space, descriptor)?;
            let first = match Bucket::initialize_page(&schema, page_size) {
                Ok(first) => first,
                Err(e) => {
                    return Err(e);
                },
            };
            let (bucket, writer) = Bucket::open(name, page_size, schema, page_size);
            Ok((bucket, writer, Some(first)))
        } else {
            let (schema, tail) = match Bucket::load_page(page, page_size) {
                Ok(loaded) => loaded,
                Err(e) => {
                    return Err(e);
                },
            };
            let (bucket, writer) = Bucket::open(name, page_size, schema, tail);
            Ok((bucket, writer, None))
        }
    }

    /// The name of the bucket.
    pub fn get_name(&self) -> (name: &str)
        ensures
            name@ == self.spec_name(),
    {
        self.name.as_str()
    }

    /// The size of the header page of the bucket.
    pub fn get_page_size(&self) -> (page_size: u64)
        ensures
            page_size == self.spec_page_size(),
    {
        self.page_size
    }

    /// The schema of the bucket.
    pub fn borrow_description(&self) -> (schema: &BucketDescription)
        ensures
            schema@ == self.schema(),
    {
        &self.descriptor
    }

    /// The handle through which the writer of the bucket is watched and
    /// stopped.
    pub fn borrow_writer_thread(&self) -> (thread: &WriterThread)
        ensures
            *thread.q == self.queue(),
    {
        &self.writer_thread
    }

    /// The tail offset: the offset at which the next record will start. It
    /// is read as it is at this moment.
    pub fn get_offset(&self) -> u64 {
        self.atomic_offset.load(Ordering::SeqCst)
    }

    /// Reserves `len` bytes at the tail: the offset at which they start.
    /// No two calls are handed the same bytes.
    fn reserve(&self, len: u64) -> u64 {
        self.atomic_offset.fetch_add(len, Ordering::SeqCst)
    }

    /// The record of a document: the length of its bytes, its bytes, and
    /// zeros up to a multiple of eight.
    pub fn frame(document: &Document) -> (r: Result<Vec<u8>, DbError>)
        ensures
            r is Ok <==> document_record(document@) is Some,
            r matches Ok(record) ==> document_record(document@) == Some(record@),
            r matches Err(e) ==> e is CodecFailure,
    {
        let payload = document.serialize()?;
        match encode_record(payload.as_slice()) {
            Some(record) => Ok(record),
            None => Err(DbError::CodecFailure("the document is too long".to_string())),
        }
    }

    /// Hands the record that was reserved at `start` to the writer.
    pub fn place(&self, start: u64, record: Vec<u8>) -> (r: Result<(u64, [u8; 16]), DbError>)
        ensures
            is_placed(start, record@.len(), r),
    {
        let job = match QueuedWriteInformation::new(start, record) {
            Some(job) => job,
            None => {
                return Err(DbError::IoFailure("the file offset is out of range".to_string()));
            },
        };
        let end = job.seek.1;
        match push_job(&self.writer_thread.q, job) {
            Ok(_) => {
                let id = [0u8; 16];
                assert(id@ =~= Seq::new(ID_SIZE as nat, |i: int| 0u8));
                Ok((end, id))
            },
            Err(_) => Err(DbError::QueueFull),
        }
    }

    /// Insert a document into the store
    ///
    /// The document is framed as a record, the record is handed the next
    /// bytes at the tail, and a job to write it is queued. The result is
    /// the new tail offset and the id of the document, which is all zeros.
    pub fn insert(&self, document: &Document) -> (r: Result<(u64, [u8; 16]), DbError>)
        ensures
            document_record(document@) is None ==> r matches Err(DbError::CodecFailure(_)),
            document_record(document@) matches Some(record) ==> exists|start: u64|
                #[trigger] is_placed(start, record.len(), r),
    {
        let record = match Bucket::frame(document) {
            Ok(record) => record,
            Err(e) => {
                return Err(e);
            },
        };
        let ghost len = record@.len();
        let start = self.reserve(widen(record.len()));
        let r = self.place(start, record);
        assert(is_placed(start, len, r) && document_record(document@)->0.len() == len);
        r
    }

    /// The number of documents in a bucket file: the records that a scan
    /// finds behind the header page.
    pub fn count_documents(&self, file: &[u8]) -> (count: usize)
        ensures
            count == record_count(file@, self.spec_page_size() as int),
    {
        count_records(file, self.page_size)
    }
}

/// A length as a file offset.
fn widen(len: usize) -> (wide: u64)
    ensures
        wide == len,
{
    len as u64
}

} // verus!
