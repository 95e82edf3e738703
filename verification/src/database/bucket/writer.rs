//! Writers of a bucket file.
//!
//! The direct writer is used once, when a bucket is initialised: it tells
//! where in the header page the tail cursor stands and which bytes are
//! written there. All later writes go through the queued writer.

pub mod queued;

use super::layout::{cursor_at, encode_cursor, CURSOR_RESERVE, WORD};
use vstd::bytes::spec_u64_to_le_bytes;
use vstd::prelude::*;

verus! {

/// Writes the tail cursor of a bucket.
pub struct Writer {
    name: String,
    page_size: u64,
}

impl Writer {
    /// The name of the bucket that is written.
    pub closed spec fn spec_name(&self) -> Seq<char> {
        self.name@
    }

    /// The size of the header page of the bucket.
    pub closed spec fn spec_page_size(&self) -> u64 {
        self.page_size
    }

    /// A writer of the bucket `name`.
    pub fn new(name: &str, page_size: u64) -> (writer: Writer)
        ensures
            writer.spec_name() == name@,
            writer.spec_page_size() == page_size,
    {
        Writer { name: name.to_string(), page_size }
    }

    /// Sets the offset for next document
    ///
    /// The result is the offset at which the cursor is written and its
    /// eight bytes; `None` where the page has no room for a cursor.
    pub fn set_offset(&self, offset: u64) -> (write: Option<(u64, Vec<u8>)>)
        ensures
            write is Some <==> self.spec_page_size() >= CURSOR_RESERVE,
            write matches Some(w) ==> w.0 == cursor_at(self.spec_page_size() as int) && w.1@
                == spec_u64_to_le_bytes(offset) && w.1@.len() == WORD,
    {
        if self.page_size < CURSOR_RESERVE {
            None
        } else {
            Some((self.page_size - CURSOR_RESERVE, encode_cursor(offset)))
        }
    }
}

} // verus!
