//! The descriptor of a database.
//!
//! The descriptor is written once, when the database is created. Its file
//! holds the length of the encoded descriptor as eight bytes, eight bytes
//! that are left free, and the encoded descriptor from offset 16 on. The
//! descriptor is encoded by `bincode` as its two numbers.

use crate::error::DbError;
use crate::utils::bytes::{append_bytes, append_zeros, zeros};
use crate::utils::endian::{lemma_unsigned_round_trip, u64_from_le_bytes, u64_to_le_bytes};
use vstd::bytes::{spec_u64_from_le_bytes, spec_u64_to_le_bytes};
use vstd::prelude::*;

verus! {

/// Extra head-room added on-top of the header size to allow for compatability with future versions
pub const HEADER_ROOM: u64 = 1024;

/// The number of bytes that the two numbers of a descriptor take.
pub const DESCRIPTOR_SIZE: u64 = 16;

/// The page size of a default descriptor: 8 KB.
pub const DEFAULT_PAGE_SIZE: u64 = 8192;

/// The offset of the encoded descriptor in its file.
pub const DESCRIPTOR_AT: usize = 16;

/// What a database was created with.
#[derive(Debug, Clone, Copy, PartialEq, Eq, Structural)]
pub struct DBDescriptor {
    /// The size of a page, which is the size of the header of a bucket file.
    pub page_size: u64,
    /// The number of bytes that are set aside for the descriptor file.
    pub header_size: u64,
}

/// The bytes that `bincode` writes for the two numbers of a descriptor;
/// `None` where it refuses them.
pub uninterp spec fn bincode_descriptor(page_size: u64, header_size: u64) -> Option<Seq<u8>>;

/// The two numbers that `bincode` reads from bytes; `None` where the bytes
/// hold no two numbers.
pub uninterp spec fn bincode_descriptor_read(bytes: Seq<u8>) -> Option<(u64, u64)>;

/// `bincode::serialize` on the pair of the page size and the header size:
/// the bytes of the pair. Reading those bytes with `bincode::deserialize`
/// gives the pair back.
#[verifier::external_body]
fn encode_descriptor(page_size: u64, header_size: u64) -> (r: Result<Vec<u8>, String>)
    ensures
        r is Ok <==> bincode_descriptor(page_size, header_size) is Some,
        r matches Ok(bytes) ==> bincode_descriptor(page_size, header_size) == Some(bytes@),
        r matches Ok(bytes) ==> bincode_descriptor_read(bytes@) == Some((page_size, header_size)),
{
    bincode::serialize(&(page_size, header_size)).map_err(|e| e.to_string())
}

/// `bincode::deserialize` to a pair of 64-bit numbers.
#[verifier::external_body]
fn decode_descriptor(bytes: &[u8]) -> (r: Result<(u64, u64), String>)
    ensures
        r is Ok <==> bincode_descriptor_read(bytes@) is Some,
        r matches Ok(pair) ==> bincode_descriptor_read(bytes@) == Some(pair),
{
    bincode::deserialize(bytes).map_err(|e| e.to_string())
}

/// `page_size::get` of page_size: the size of a memory page of the machine
/// that runs the program.
#[verifier::external_body]
fn os_page_size() -> (size: usize) {
    page_size::get()
}

/// The bytes of a descriptor.
pub open spec fn descriptor_encoding(descriptor: DBDescriptor) -> Option<Seq<u8>> {
    bincode_descriptor(descriptor.page_size, descriptor.header_size)
}

/// The descriptor that bytes hold.
pub open spec fn descriptor_decoding(bytes: Seq<u8>) -> Option<DBDescriptor> {
    match bincode_descriptor_read(bytes) {
        Some(pair) => Some(DBDescriptor { page_size: pair.0, header_size: pair.1 }),
        None => None,
    }
}

/// The start of the descriptor file that holds an encoded descriptor: its
/// length, eight free bytes, and the encoded descriptor.
pub open spec fn descriptor_file(encoded: Seq<u8>) -> Seq<u8> {
    spec_u64_to_le_bytes(encoded.len() as u64) + zeros(8) + encoded
}

/// The encoded descriptor that a descriptor file holds, where the file is
/// long enough to hold what its length prefix announces.
pub open spec fn descriptor_in(file: Seq<u8>) -> Option<Seq<u8>> {
    if file.len() < DESCRIPTOR_AT {
        None
    } else {
        let len = spec_u64_from_le_bytes(file.subrange(0, 8));
        if DESCRIPTOR_AT + len > file.len() {
            None
        } else {
            Some(file.subrange(DESCRIPTOR_AT as int, DESCRIPTOR_AT + len))
        }
    }
}

/// The descriptor that a descriptor file holds.
pub open spec fn stored_descriptor(file: Seq<u8>) -> Option<DBDescriptor> {
    match descriptor_in(file) {
        Some(encoded) => descriptor_decoding(encoded),
        None => None,
    }
}

/// Whether `r` is what loading a descriptor file gives: the descriptor that
/// the file holds, `IoFailure` where the file is too short, `CodecFailure`
/// where its bytes are no descriptor.
pub open spec fn is_loaded(file: Seq<u8>, r: Result<DBDescriptor, DbError>) -> bool {
    match r {
        Ok(descriptor) => stored_descriptor(file) == Some(descriptor),
        Err(DbError::IoFailure(_)) => descriptor_in(file) is None,
        Err(DbError::CodecFailure(_)) => descriptor_in(file) is Some && stored_descriptor(file)
            is None,
        Err(_) => false,
    }
}

/// A descriptor file holds the encoded descriptor that it was made of.
pub proof fn lemma_descriptor_file(encoded: Seq<u8>)
    requires
        encoded.len() <= u64::MAX,
    ensures
        descriptor_in(descriptor_file(encoded)) == Some(encoded),
        descriptor_file(encoded).len() == DESCRIPTOR_AT + encoded.len(),
{
    lemma_unsigned_round_trip();
    let file = descriptor_file(encoded);
    assert(file.subrange(0, 8) =~= spec_u64_to_le_bytes(encoded.len() as u64));
    assert(file.subrange(DESCRIPTOR_AT as int, DESCRIPTOR_AT + encoded.len()) =~= encoded);
}

impl DBDescriptor {
    /// Initializes a descriptor with a default page size of 8 KB
    pub fn default() -> (descriptor: DBDescriptor)
        ensures
            descriptor == (DBDescriptor {
                page_size: DEFAULT_PAGE_SIZE,
                header_size: (DESCRIPTOR_SIZE + HEADER_ROOM) as u64,
            }),
    {
        let mut desc = DBDescriptor::new();
        desc.page_size = DEFAULT_PAGE_SIZE;
        desc
    }

    /// Initializes a dynamic descriptor, which fetches page size from the system
    pub fn dynamic() -> (descriptor: DBDescriptor)
        ensures
            descriptor.header_size == DESCRIPTOR_SIZE + HEADER_ROOM,
    {
        DBDescriptor::with_page_size(os_page_size() as u64)
    }

    /// A descriptor for pages of `page_size` bytes.
    pub fn with_page_size(page_size: u64) -> (descriptor: DBDescriptor)
        ensures
            descriptor == (DBDescriptor {
                page_size,
                header_size: (DESCRIPTOR_SIZE + HEADER_ROOM) as u64,
            }),
    {
        let mut desc = DBDescriptor::new();
        desc.page_size = page_size;
        desc
    }

    /// A descriptor without a page size: the header size is the size of the
    /// descriptor and the head-room.
    pub fn new() -> (descriptor: DBDescriptor)
        ensures
            descriptor == (DBDescriptor {
                page_size: 0,
                header_size: (DESCRIPTOR_SIZE + HEADER_ROOM) as u64,
            }),
    {
        DBDescriptor { page_size: 0, header_size: DESCRIPTOR_SIZE + HEADER_ROOM }
    }

    /// Serializes a descriptor into bytes
    pub fn serialize(&self) -> (r: Result<Vec<u8>, DbError>)
        ensures
            r is Ok <==> descriptor_encoding(*self) is Some,
            r matches Ok(bytes) ==> descriptor_encoding(*self) == Some(bytes@),
            r matches Ok(bytes) ==> descriptor_decoding(bytes@) == Some(*self),
            r matches Err(e) ==> e is CodecFailure,
    {
        match encode_descriptor(self.page_size, self.header_size) {
            Ok(bytes) => Ok(bytes),
            Err(reason) => Err(DbError::CodecFailure(reason)),
        }
    }

    /// Deserializes a descriptor from bytes
    pub fn deserialize(data: &[u8]) -> (r: Result<DBDescriptor, DbError>)
        ensures
            r is Ok <==> descriptor_decoding(data@) is Some,
            r matches Ok(descriptor) ==> descriptor_decoding(data@) == Some(descriptor),
            r matches Err(e) ==> e is CodecFailure,
    {
        match decode_descriptor(data) {
            Ok(pair) => Ok(DBDescriptor { page_size: pair.0, header_size: pair.1 }),
            Err(reason) => Err(DbError::CodecFailure(reason)),
        }
    }

    /// The start of the descriptor file: the bytes to write at offset 0 of a
    /// file of `header_size` bytes. Loading a file that starts with them
    /// gives the descriptor back.
    pub fn save(&self) -> (r: Result<Vec<u8>, DbError>)
        ensures
            r is Ok <==> descriptor_encoding(*self) is Some,
            r matches Ok(file) ==> file@ == descriptor_file(descriptor_encoding(*self)->0),
            r matches Ok(file) ==> stored_descriptor(file@) == Some(*self),
            r matches Err(e) ==> e is CodecFailure,
    {
        let encoded = self.serialize()?;
        let mut file = u64_to_le_bytes(encoded.len() as u64);
        append_zeros(&mut file, 8);
        append_bytes(&mut file, encoded.as_slice());
        proof {
            lemma_descriptor_file(encoded@);
        }
        Ok(file)
    }

    /// The descriptor that a descriptor file holds.
    pub fn load(file: &[u8]) -> (r: Result<DBDescriptor, DbError>)
        ensures
            r is Ok <==> stored_descriptor(file@) is Some,
            is_loaded(file@, r),
    {
        if file.len() < DESCRIPTOR_AT {
            return Err(DbError::IoFailure("the descriptor file is too short".to_string()));
        }
        let prefix = vstd::slice::slice_subrange(file, 0, 8);
        assert(prefix@.subrange(0, 8) =~= prefix@);
        let len = u64_from_le_bytes(prefix);
        if len > (file.len() - DESCRIPTOR_AT) as u64 {
            return Err(DbError::IoFailure("the descriptor file is too short".to_string()));
        }
        let encoded = vstd::slice::slice_subrange(file, DESCRIPTOR_AT, DESCRIPTOR_AT + len as usize);
        DBDescriptor::deserialize(encoded)
    }
}

} // verus!
