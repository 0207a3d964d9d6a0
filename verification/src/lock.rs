//! The advisory lock reserved for coordinating concurrent registry writers.
//!
//! The lock records where exclusion would be taken; no exclusion is provided
//! yet, and concurrent writers of one registry document are not coordinated.

use vstd::prelude::*;
use crate::errors::TwinError;

verus! {

/// A file-based lock handle for the registry document.
#[derive(Debug)]
pub struct FileLock {
    /// Where the lock file would be placed.
    pub lock_path: String,
}

impl FileLock {
    /// A lock handle for the given path.
    pub fn new(lock_path: String) -> (r: FileLock)
        ensures
            r.lock_path@ == lock_path@,
    {
        FileLock { lock_path }
    }

    /// Take the lock. The protocol is not yet engaged: acquisition always
    /// succeeds and excludes nobody.
    pub fn acquire(&self) -> (r: Result<(), TwinError>)
        ensures
            r is Ok,
    {
        Ok(())
    }

    /// Release the lock; the mirror of `acquire`.
    pub fn release(&self) -> (r: Result<(), TwinError>)
        ensures
            r is Ok,
    {
        Ok(())
    }
}

} // verus!
