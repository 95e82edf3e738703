//! The database: a directory of buckets and one descriptor file.
//!
//! The database keeps the descriptor it was created with and a registry of
//! its open buckets. It checks each document against the schema of its
//! bucket before it hands the document on. Directories and files are the
//! caller's: what was read from them is handed in, and what is to be written
//! comes back.

pub mod bucket;
pub mod descriptor;

use crate::error::DbError;
use bucket::descriptor::{fits, is_verdict, BucketDescription};
use bucket::document::field::descriptor::FieldDescriptorView;
use bucket::document::field::FieldView;
use bucket::document::{Document, DocumentConvert};
use bucket::writer::queued::{queue_capacity, QueuedWriter};
use bucket::{
    document_record, first_page, is_page_loaded, is_placed, page_contents, same_bucket, Bucket,
    MIN_FREE_BYTES, QUEUE_CAPACITY,
};
use dashmap::DashMap;
use descriptor::{stored_descriptor, DBDescriptor, DESCRIPTOR_SIZE, HEADER_ROOM};
use vstd::prelude::*;
use vstd::string::StringExecFns;

verus! {

#[verifier::external_type_specification]
#[verifier::external_body]
#[verifier::reject_recursive_types(K)]
#[verifier::reject_recursive_types(V)]
#[verifier::reject_recursive_types(S)]
pub struct ExDashMap<K, V, S>(DashMap<K, V, S>);

/// The buckets that a registry holds, by their names.
pub uninterp spec fn registry_view(registry: DashMap<String, Bucket>) -> Map<Seq<char>, Bucket>;

/// The registry that holds no bucket.
pub open spec fn no_buckets() -> Map<Seq<char>, Bucket> {
    Map::empty()
}

/// `DashMap::new` of dashmap: an empty map.
#[verifier::external_body]
fn registry_new() -> (registry: DashMap<String, Bucket>)
    ensures
        registry_view(registry) == no_buckets(),
{
    DashMap::new()
}

/// `DashMap::insert` of dashmap: the map holds the bucket under the name,
/// in place of what it held under that name before.
#[verifier::external_body]
fn registry_insert(registry: &mut DashMap<String, Bucket>, name: String, bucket: Bucket)
    ensures
        registry_view(*final(registry)) == registry_view(*old(registry)).insert(name@, bucket),
{
    registry.insert(name, bucket);
}

/// `DashMap::get` of dashmap, and a clone of the bucket found: a second
/// handle to the bucket that the map holds under the name, if it holds one.
#[verifier::external_body]
fn registry_get(registry: &DashMap<String, Bucket>, name: &str) -> (found: Option<Bucket>)
    ensures
        found is Some <==> registry_view(*registry).contains_key(name@),
        found matches Some(bucket) ==> same_bucket(bucket, registry_view(*registry)[name@]),
{
    registry.get(name).map(|entry| entry.value().clone())
}

/// `DashMap::clone` of dashmap: a map that holds the same buckets under the
/// same names.
#[verifier::external_body]
fn registry_clone(registry: &DashMap<String, Bucket>) -> (copy: DashMap<String, Bucket>)
    ensures
        registry_view(copy).dom() == registry_view(*registry).dom(),
{
    registry.clone()
}

/// Whether `r` is what the insert of a document gives in a bucket with the
/// schema `schema`. A value that is no document fails with
/// `ConversionFailed`, a document that does not fit the schema with the
/// verdict of the schema, one that cannot be framed with `CodecFailure`.
/// Else the record is placed at the offset that the bucket hands out.
pub open spec fn is_checked_insert(
    schema: Seq<FieldDescriptorView>,
    document: Option<Seq<FieldView>>,
    r: Result<(u64, [u8; 16]), DbError>,
) -> bool {
    if document is None {
        r == Err::<(u64, [u8; 16]), DbError>(DbError::ConversionFailed)
    } else if !fits(schema, document->0) {
        r is Err && is_verdict(schema, document->0, Err(r->Err_0))
    } else if document_record(document->0) is None {
        r matches Err(DbError::CodecFailure(_))
    } else {
        exists|start: u64| #[trigger] is_placed(start, document_record(document->0)->0.len(), r)
    }
}

/// Whether `r` is what the insert of a document into the bucket `name`
/// gives: `UnknownBucket` where no bucket of that name is open, else what
/// the insert gives in that bucket.
pub open spec fn is_inserted(
    buckets: Map<Seq<char>, Bucket>,
    name: Seq<char>,
    document: Option<Seq<FieldView>>,
    r: Result<(u64, [u8; 16]), DbError>,
) -> bool {
    if !buckets.contains_key(name) {
        r == Err::<(u64, [u8; 16]), DbError>(DbError::UnknownBucket)
    } else {
        is_checked_insert(buckets[name].schema(), document, r)
    }
}

/// The name of the file of a bucket: the name of the bucket and `.page`.
pub fn bucket_file_name(name: &str) -> (file: String)
    ensures
        file@ == name@ + ".page"@,
{
    let mut file = name.to_string();
    file.append(".page");
    file
}

/// A directory of buckets.
pub struct Database {
    store_dir: String,
    buckets: DashMap<String, Bucket>,
    descriptor: DBDescriptor,
}

impl Database {
    /// The directory of the database.
    pub closed spec fn spec_store_dir(&self) -> Seq<char> {
        self.store_dir@
    }

    /// The open buckets of the database, by their names.
    pub closed spec fn buckets(&self) -> Map<Seq<char>, Bucket> {
        registry_view(self.buckets)
    }

    /// The descriptor of the database.
    pub closed spec fn spec_descriptor(&self) -> DBDescriptor {
        self.descriptor
    }

    /// Opens the database in the directory `path`.
    ///
    /// `stored` is the descriptor file of the directory, or `None` where
    /// the directory does not exist yet. A new database gets a descriptor
    /// with the page size of the machine, and the start of its descriptor
    /// file comes back to be written.
    pub fn open(path: &str, stored: Option<&[u8]>) -> (r: Result<
        (Database, Option<Vec<u8>>),
        DbError,
    >)
        ensures
            stored matches Some(file) ==> (r is Ok <==> stored_descriptor(file@) is Some),
            stored matches Some(file) ==> (r matches Ok(opened) ==> stored_descriptor(file@)
                == Some(opened.0.spec_descriptor()) && opened.1 is None),
            stored matches Some(file) ==> (r matches Err(e) ==> descriptor::is_loaded(
                file@,
                Err(e),
            )),
            stored is None ==> (r matches Ok(opened) ==> opened.1 is Some && stored_descriptor(
                opened.1->0@,
            ) == Some(opened.0.spec_descriptor()) && opened.0.spec_descriptor().header_size
                == DESCRIPTOR_SIZE + HEADER_ROOM),
            stored is None ==> (r matches Err(e) ==> e is CodecFailure),
            r matches Ok(opened) ==> opened.0.buckets() == no_buckets()
                && opened.0.spec_store_dir() == path@,
    {
        match stored {
            Some(file) => {
                let descriptor = match DBDescriptor::load(file) {
                    Ok(descriptor) => descriptor,
                    Err(e) => {
                        return Err(e);
                    },
                };
                Ok((Database::with_descriptor(path, descriptor), None))
            },
            None => {
                let descriptor = DBDescriptor::dynamic();
                let file = match descriptor.save() {
                    Ok(file) => file,
                    Err(e) => {
                        return Err(e);
                    },
                };
                Ok((Database::with_descriptor(path, descriptor), Some(file)))
            },
        }
    }

    /// The database in the directory `path` with the given descriptor and
    /// no open bucket.
    pub fn with_descriptor(path: &str, descriptor: DBDescriptor) -> (database: Database)
        ensures
            database.spec_store_dir() == path@,
            database.spec_descriptor() == descriptor,
            database.buckets() == no_buckets(),
    {
        Database { store_dir: path.to_string(), buckets: registry_new(), descriptor }
    }

    /// The directory of the database.
    pub fn get_store_dir(&self) -> (path: &str)
        ensures
            path@ == self.spec_store_dir(),
    {
        self.store_dir.as_str()
    }

    /// The descriptor of the database.
    pub fn get_descriptor(&self) -> (descriptor: DBDescriptor)
        ensures
            descriptor == self.spec_descriptor(),
    {
        self.descriptor
    }

    /// Opens the bucket `name` and registers it.
    ///
    /// `existing` is the header page of the file of the bucket, or `None`
    /// where the bucket has no file yet. A new bucket needs a schema and
    /// `free_space` bytes of free space of at least the minimum; its header
    /// page comes back to be written. With the page comes the writer of the
    /// bucket, to be run by the caller.
    pub fn open_bucket(
        &mut self,
        name: &str,
        descriptor: Option<BucketDescription>,
        existing: Option<&[u8]>,
        free_space: u64,
    ) -> (r: Result<(QueuedWriter, Option<Vec<u8>>), DbError>)
        ensures
            final(self).spec_descriptor() == old(self).spec_descriptor(),
            final(self).spec_store_dir() == old(self).spec_store_dir(),
            r is Err ==> final(self).buckets() == old(self).buckets(),
            r is Ok ==> final(self).buckets().dom() == old(self).buckets().dom().insert(name@),
            r is Ok ==> forall|other: Seq<char>|
                other != name@ && old(self).buckets().contains_key(other)
                    ==> final(self).buckets()[other] == #[trigger] old(self).buckets()[other],
            existing matches Some(page) ==> (r is Ok <==> page_contents(
                page@,
                old(self).spec_descriptor().page_size as int,
            ) is Some),
            existing matches Some(page) ==> (r matches Ok(opened) ==> page_contents(
                page@,
                old(self).spec_descriptor().page_size as int,
            ) == Some((final(self).buckets()[name@].schema(), opened.0.tail())) && opened.1
                is None),
            existing matches Some(page) ==> (r matches Err(e) ==> is_page_loaded(
                page@,
                old(self).spec_descriptor().page_size as int,
                Err(e),
            )),
            existing is None && free_space >= MIN_FREE_BYTES && descriptor is Some && first_page(
                descriptor->0@,
                old(self).spec_descriptor().page_size,
            ) is None ==> r matches Err(DbError::CodecFailure(_)),
            existing is None ==> (r is Ok <==> free_space >= MIN_FREE_BYTES && descriptor is Some
                && first_page(descriptor->0@, old(self).spec_descriptor().page_size) is Some),
            existing is None && free_space < MIN_FREE_BYTES ==> r matches Err(
                DbError::InsufficientSpace,
            ),
            existing is None && free_space >= MIN_FREE_BYTES && descriptor is None ==> r matches Err(
                DbError::SchemaMissing,
            ),
            existing is None ==> (r matches Ok(opened) ==> final(self).buckets()[name@].schema()
                == descriptor->0@ && opened.0.tail() == old(self).spec_descriptor().page_size
                && opened.1 is Some && first_page(
                descriptor->0@,
                old(self).spec_descriptor().page_size,
            ) == Some(opened.1->0@)),
            r matches Ok(opened) ==> opened.0.queue() == final(self).buckets()[name@].queue()
                && queue_capacity(opened.0.queue()) == QUEUE_CAPACITY,
    {
        let page_size = self.descriptor.page_size;
        let empty: Vec<u8> = Vec::new();
        let opened = match existing {
            Some(page) => Bucket::new(name, page_size, false, descriptor, free_space, page),
            None => Bucket::new(name, page_size, true, descriptor, free_space, empty.as_slice()),
        };
        match opened {
            Ok((bucket, writer, page)) => {
                registry_insert(&mut self.buckets, name.to_string(), bucket);
                Ok((writer, page))
            },
            Err(e) => Err(e),
        }
    }

    /// A handle to the open bucket `name`, if there is one.
    pub fn get_bucket(&self, name: &str) -> (found: Option<Bucket>)
        ensures
            found is Some <==> self.buckets().contains_key(name@),
            found matches Some(bucket) ==> same_bucket(bucket, self.buckets()[name@]),
    {
        registry_get(&self.buckets, name)
    }

    /// Try to fetch a mutable reference to an internal bucket
    ///
    /// The registry that comes back holds handles to the open buckets.
    pub fn borrow_buckets(&self) -> (copy: DashMap<String, Bucket>)
        ensures
            registry_view(copy).dom() == self.buckets().dom(),
    {
        registry_clone(&self.buckets)
    }

    /// Inserts a new key and value into a bucket
    pub fn insert<T: DocumentConvert>(&mut self, bucket: &str, key: isize, value: T) -> (r: Result<
        (u64, [u8; 16]),
        DbError,
    >)
        ensures
            is_inserted(old(self).buckets(), bucket@, value.spec_convert_to(), r),
            final(self).buckets() == old(self).buckets(),
            final(self).spec_descriptor() == old(self).spec_descriptor(),
    {
        let found = match registry_get(&self.buckets, bucket) {
            Some(found) => found,
            None => {
                return Err(DbError::UnknownBucket);
            },
        };
        let document = value.convert_to();
        Database::check_and_insert(&found, document)
    }

    /// Inserts a document into a bucket, where `document` is what the
    /// conversion of a value gave.
    pub fn insert_document(&self, bucket: &str, document: Option<Document>) -> (r: Result<
        (u64, [u8; 16]),
        DbError,
    >)
        ensures
            is_inserted(
                self.buckets(),
                bucket@,
                match document {
                    Some(d) => Some(d@),
                    None => None,
                },
                r,
            ),
    {
        match registry_get(&self.buckets, bucket) {
            Some(found) => Database::check_and_insert(&found, document),
            None => Err(DbError::UnknownBucket),
        }
    }

    /// Checks a document against the schema of a bucket and hands it to
    /// the bucket.
    fn check_and_insert(found: &Bucket, document: Option<Document>) -> (r: Result<
        (u64, [u8; 16]),
        DbError,
    >)
        ensures
            is_checked_insert(
                found.schema(),
                match document {
                    Some(d) => Some(d@),
                    None => None,
                },
                r,
            ),
    {
        let document = match document {
            Some(document) => document,
            None => {
                return Err(DbError::ConversionFailed);
            },
        };
        match found.borrow_description().validate(&document) {
            Ok(_) => {},
            Err(e) => {
                return Err(e);
            },
        }
        found.insert(&document)
    }

    /// Finds what is stored under a key. The operation has no behaviour
    /// yet.
    pub fn find<T>(&self, bucket: &str, key: isize) -> (r: Result<Vec<T>, DbError>)
        ensures
            r matches Err(DbError::Unimplemented),
    {
        Err(DbError::Unimplemented)
    }

    /// Drops what is stored under a key. The operation has no behaviour
    /// yet.
    pub fn drop<T>(&mut self, bucket: &str, key: isize) -> (r: Result<Vec<T>, DbError>)
        ensures
            r matches Err(DbError::Unimplemented),
            final(self).buckets() == old(self).buckets(),
            final(self).spec_descriptor() == old(self).spec_descriptor(),
    {
        Err(DbError::Unimplemented)
    }
}

} // verus!
