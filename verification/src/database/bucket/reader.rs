//! Readers of a bucket file.
//!
//! A reader tells where the next document will be written. Where it shares
//! the tail offset of its bucket it reads that, without touching the file;
//! else it reads the tail cursor of the header page.

use super::layout::{cursor_at, cursor_in, read_cursor, CURSOR_RESERVE};
use crate::error::DbError;
use std::sync::atomic::{AtomicU64, Ordering};
use std::sync::Arc;
use vstd::prelude::*;

verus! {

/// Whether `r` is what reading the tail cursor of a header page gives: the
/// cursor, or `IoFailure` where the page does not reach to its end.
pub open spec fn is_cursor_read(page: Seq<u8>, page_size: int, r: Result<u64, DbError>) -> bool {
    match r {
        Ok(tail) => cursor_in(page, page_size) == Some(tail),
        Err(DbError::IoFailure(_)) => cursor_in(page, page_size) is None,
        Err(_) => false,
    }
}

/// Reads the tail offset of a bucket.
pub struct Reader {
    name: String,
    page_size: u64,
    offset: Option<Arc<AtomicU64>>,
}

impl Reader {
    /// The name of the bucket that is read.
    pub closed spec fn spec_name(&self) -> Seq<char> {
        self.name@
    }

    /// The size of the header page of the bucket.
    pub closed spec fn spec_page_size(&self) -> u64 {
        self.page_size
    }

    /// Whether the reader shares the tail offset of its bucket.
    pub closed spec fn shares_offset(&self) -> bool {
        self.offset is Some
    }

    /// A reader of the bucket `name`, which shares the tail offset `offset`
    /// if one is given.
    pub fn new(name: &str, page_size: u64, offset: Option<Arc<AtomicU64>>) -> (reader: Reader)
        ensures
            reader.spec_name() == name@,
            reader.spec_page_size() == page_size,
            reader.shares_offset() == offset is Some,
    {
        Reader { name: name.to_string(), page_size, offset }
    }

    /// The offset of the tail cursor in the file, where the page has room
    /// for it.
    pub fn cursor_location(&self) -> (at: Option<u64>)
        ensures
            at is Some <==> self.spec_page_size() >= CURSOR_RESERVE,
            at matches Some(offset) ==> offset == cursor_at(self.spec_page_size() as int),
    {
        if self.page_size < CURSOR_RESERVE {
            None
        } else {
            Some(self.page_size - CURSOR_RESERVE)
        }
    }

    /// Whether reading the offset needs the header page of the file.
    pub fn needs_page(&self) -> (needed: bool)
        ensures
            needed == !self.shares_offset(),
    {
        self.offset.is_none()
    }

    /// The tail offset that the reader shares, as it is at this moment.
    fn shared_offset(&self) -> (tail: Option<u64>)
        ensures
            tail is Some <==> self.shares_offset(),
    {
        match &self.offset {
            Some(offset) => Some(offset.load(Ordering::SeqCst)),
            None => None,
        }
    }

    /// Get the current offset for next document
    ///
    /// A reader that shares the tail offset of its bucket gives that, and
    /// does not look at `page`. Any other reader gives the tail cursor of
    /// the header page `page`.
    pub fn get_offset(&self, page: &[u8]) -> (r: Result<u64, DbError>)
        ensures
            self.shares_offset() ==> r is Ok,
            !self.shares_offset() ==> is_cursor_read(page@, self.spec_page_size() as int, r),
    {
        match self.shared_offset() {
            Some(tail) => Ok(tail),
            None => match read_cursor(page, self.page_size) {
                Some(tail) => Ok(tail),
                None => Err(DbError::IoFailure("the header page is too short".to_string())),
            },
        }
    }
}

} // verus!
