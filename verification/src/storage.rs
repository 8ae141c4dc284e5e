//! Storage facade for remote settings records.
//!
//! The interface is in place ahead of its database backing: opening always
//! succeeds, no records are retained yet, and queries report that no update
//! has ever been stored.  The contracts pin that behavior exactly, so callers
//! written against this facade keep working when a real backing store lands.

use vstd::prelude::*;

verus! {

/// A record downloaded from the remote settings server.
#[derive(Clone, Debug, PartialEq, Eq)]
pub struct RemoteSettingsRecord {
    pub id: String,
    pub last_modified: u64,
    pub deleted: bool,
}

/// Errors from the storage layer.
#[derive(Clone, Debug, PartialEq, Eq)]
pub enum StorageError {
    Unexpected(String),
}

/// Storage container for records and attachments.
pub struct Storage {}

impl Storage {
    /// Open the storage at the given database path.
    pub fn new(db_path: &str) -> (r: Result<Storage, StorageError>)
        ensures
            r is Ok,
    {
        let _ = db_path;
        Ok(Storage {  })
    }

    /// Get all records currently in storage.
    ///
    /// Returns `None` if `update_records` has never been called.  Note: this
    /// is different from `update_records` being called with 0 items.  No
    /// update is ever recorded by this facade, so the answer is always
    /// `None`.
    pub fn get_records(&self) -> (r: Result<Option<Vec<RemoteSettingsRecord>>, StorageError>)
        ensures
            r == Result::<Option<Vec<RemoteSettingsRecord>>, StorageError>::Ok(None),
    {
        Ok(None)
    }

    /// Update the stored records.
    ///
    /// `records` is a list of remote settings records downloaded from the
    /// server; any with `deleted` set are to be removed from storage.  This
    /// facade accepts and discards them.
    pub fn update_records(&self, records: Vec<RemoteSettingsRecord>, last_modified: u64) -> (r:
        Result<(), StorageError>)
        ensures
            r is Ok,
    {
        let _ = records;
        let _ = last_modified;
        Ok(())
    }

    /// Get the `last_modified` time from the most recent call to
    /// [`Storage::update_records`], or `None` when none was recorded.
    pub fn last_modified_time(&self) -> (r: Result<Option<u64>, StorageError>)
        ensures
            r == Result::<Option<u64>, StorageError>::Ok(None),
    {
        Ok(None)
    }
}

} // verus!
