//! The errors of the store.

use vstd::prelude::*;

verus! {

/// What can go wrong in the store. Every error reaches the caller of the
/// public function in which it arose.
#[derive(Debug, Clone, PartialEq, Eq)]
pub enum DbError {
    /// The bucket file is missing on a load attempt.
    PathNotFound,
    /// Less than the minimum of free space is left to initialise a bucket.
    InsufficientSpace,
    /// A new bucket was opened without a schema.
    SchemaMissing,
    /// A document has another number of fields than its schema.
    SchemaArity { expected: usize, actual: usize },
    /// A field of a document is not declared in its schema. `name` is the
    /// name of the field as it is stored.
    SchemaFieldUnknown { name: Vec<u8> },
    /// A value could not be turned into a document.
    ConversionFailed,
    /// No bucket of that name is open.
    UnknownBucket,
    /// The write queue is full.
    QueueFull,
    /// A read, write or seek failed, or a file is shorter than its layout
    /// asks for.
    IoFailure(String),
    /// A descriptor or a document could not be encoded or decoded.
    CodecFailure(String),
    /// The operation has no behaviour yet.
    Unimplemented,
}

} // verus!
