//! Provenance metadata over the storage collaborator.
//!
//! A lineage record names the stored payload, where it came from, who made
//! it and when.  Building the record is the part decided here; shipping it
//! to a backend, and the clock that stamps it, belong to the surrounding
//! application.
use crate::storage::StorageProvider;
use vstd::prelude::*;

verus! {

/// Lineage metadata for one stored payload.
pub struct DataLineage {
    /// The identifier text of the payload described.
    pub cid: String,
    /// The data source.
    pub origin: String,
    /// The creator's identity.
    pub creator: String,
    /// Creation timestamp, seconds.
    pub created_at: u64,
    /// Last-modification timestamp, seconds; zero for a fresh record.
    pub modified_at: u64,
}

/// Tracks lineage records against a storage backend.
pub struct ProvenanceManager<T: StorageProvider> {
    pub storage: T,
}

impl<T: StorageProvider> ProvenanceManager<T> {
    pub fn new(storage: T) -> (r: Self) {
        ProvenanceManager { storage }
    }

    /// The lineage record for a payload stored under `cid`: a fresh record
    /// carries the given origin, creator and timestamp, and was never
    /// modified.
    pub fn make_lineage(cid: String, origin: String, creator: String, created_at: u64) -> (r:
        DataLineage)
        ensures
            r.cid@ == cid@,
            r.origin@ == origin@,
            r.creator@ == creator@,
            r.created_at == created_at,
            r.modified_at == 0,
    {
        DataLineage { cid, origin, creator, created_at, modified_at: 0 }
    }
}

} // verus!
