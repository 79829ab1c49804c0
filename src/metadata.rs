//! What the file system reports of a file.

use vstd::prelude::*;

verus! {

/// Size, times and permissions of a file. A time is `None` only when the file
/// system did not report it; it is never defaulted to zero.
pub struct FileMetadata {
    pub size: u64,
    /// Creation time, in seconds since the Unix epoch.
    pub created: Option<i64>,
    /// Modification time, in seconds since the Unix epoch.
    pub modified: Option<i64>,
    pub is_readonly: bool,
}

} // verus!
