//! Contribution bookkeeping over the storage collaborator.
use crate::storage::StorageProvider;
use vstd::prelude::*;

verus! {

/// One recorded contribution: which payload, by whom, used how often.
pub struct DataContribution {
    /// The identifier text of the contributed payload.
    pub cid: String,
    /// The contributor's identity.
    pub contributor: String,
    /// How often the contribution was used.
    pub usage_count: u64,
}

/// Records contributions against a storage backend.
pub struct DataDAO<T: StorageProvider> {
    pub storage: T,
}

impl<T: StorageProvider> DataDAO<T> {
    pub fn new(storage: T) -> (r: Self) {
        DataDAO { storage }
    }

    /// The record for a fresh contribution: it names the payload and the
    /// contributor and starts with a zero usage count.
    pub fn contribution_record(cid: String, contributor: String) -> (r: DataContribution)
        ensures
            r.cid@ == cid@,
            r.contributor@ == contributor@,
            r.usage_count == 0,
    {
        DataContribution { cid, contributor, usage_count: 0 }
    }
}

} // verus!
