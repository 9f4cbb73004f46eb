//! When the local copy of the repository's package list is renewed.

use vstd::prelude::*;

verus! {

/// The age in seconds above which the local copy is renewed. The
/// repository renews its list every five minutes.
pub const MAX_AGE_SECS: u64 = 300;

/// Why a package list is not accepted.
#[derive(Clone, Copy, Debug, PartialEq, Eq, Structural)]
pub enum ArchiveError {
    /// The archive cannot be unpacked.
    Decompress,
    /// What the archive holds is not a package list.
    Parse,
}

impl ArchiveError {
    /// The number that stands for the error.
    pub fn code(self) -> (r: u32)
        ensures
            r == match self {
                ArchiveError::Decompress => 1u32,
                ArchiveError::Parse => 2u32,
            },
    {
        match self {
            ArchiveError::Decompress => 1,
            ArchiveError::Parse => 2,
        }
    }
}

/// Whether the local copy must be renewed: it is older than five minutes.
/// Both times are in seconds since 1970. A copy from the future is renewed.
pub fn new(current_time: u64, file_last_modified: u64) -> (update_cache: bool)
    ensures
        update_cache == (file_last_modified > current_time || current_time - file_last_modified
            > MAX_AGE_SECS),
{
    if file_last_modified > current_time {
        true
    } else {
        current_time - file_last_modified > MAX_AGE_SECS
    }
}

} // verus!
