//! An embedded, append-only document store: the verified core of the
//! per-bucket storage engine.
//!
//! The crate holds the logic that decides what is written where: the field
//! codecs, documents and schemas, the header page and record layout, the
//! offset reservation of the insert path and the chunk coalescing of the
//! queued writer. Files, threads and sleeping are left to the caller, which
//! hands bytes in and takes bytes out.

pub mod account;
pub mod database;
pub mod error;
pub mod utils;
