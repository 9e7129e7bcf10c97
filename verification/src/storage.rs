//! The pluggable storage collaborator.
//!
//! The machine's own block store lives in `blockstore`; this trait is the
//! injection point for other backends that persist bytes under an identifier
//! text.  Implementations that reach a network belong to the surrounding
//! application; the placeholder backend here answers with fixed values.
use vstd::prelude::*;

verus! {

/// A storage backend: persists bytes under an identifier text and fetches
/// them back.  Either operation may fail with a backend-specific message.
pub trait StorageProvider {
    fn upload(&self, data: Vec<u8>) -> Result<String, String>;

    fn download(&self, cid: &str) -> Result<Vec<u8>, String>;
}

/// A placeholder backend standing in for a remote store: it accepts every
/// upload and answers every download with fixed bytes.
pub struct FilecoinStorage {}

impl FilecoinStorage {
    pub fn new() -> (r: Self) {
        FilecoinStorage {}
    }
}

impl StorageProvider for FilecoinStorage {
    fn upload(&self, data: Vec<u8>) -> Result<String, String> {
        Ok("bafybeigdyrzt5sfp7udm7hu76uh7y26nf3efuylqabf3oclgtqy55fbzdi".to_owned())
    }

    fn download(&self, cid: &str) -> Result<Vec<u8>, String> {
        let mut v: Vec<u8> = Vec::new();
        v.push(1);
        v.push(2);
        v.push(3);
        Ok(v)
    }
}

} // verus!
