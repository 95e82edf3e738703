//! The configuration of a bucket.

use vstd::prelude::*;

verus! {

/// How a bucket is tuned.
#[derive(Clone, Copy, Debug, PartialEq, Eq, Hash, Structural)]
pub struct BucketConfiguration {
    drive_type: DriveType,
}

impl BucketConfiguration {
    /// The configuration of a bucket on a drive of the given kind.
    pub fn new(drive_type: DriveType) -> (configuration: BucketConfiguration)
        ensures
            configuration.spec_drive_type() == drive_type,
    {
        BucketConfiguration { drive_type }
    }

    /// The kind of drive that holds the bucket.
    pub closed spec fn spec_drive_type(&self) -> DriveType {
        self.drive_type
    }

    /// The kind of drive that holds the bucket.
    pub fn get_drive_type(&self) -> (drive_type: DriveType)
        ensures
            drive_type == self.spec_drive_type(),
    {
        self.drive_type
    }
}

/// The kind of drive that holds a bucket.
#[derive(Clone, Copy, Debug, PartialEq, Eq, Hash, Structural)]
pub enum DriveType {
    HDD,
    SSD,
}

} // verus!
