//! Small helpers shared by the storage engine.

pub mod bytes;
pub mod endian;
pub mod numbers;
pub mod pool;
