//! The content-addressed block store.
//!
//! The bytes live in an in-memory block store of the `fvm_ipld_blockstore`
//! crate, keyed by content identifier.  The store mutates behind a shared
//! reference, so it is held in an opaque struct and reached only through the
//! trusted wrappers below, whose contracts speak of the named contents map.
use fvm_ipld_blockstore::Blockstore;
use vstd::prelude::*;

use crate::content_id::ContentId;

verus! {

/// The stored blocks, keyed by content identifier: payload codec tag, hash
/// algorithm tag and digest bytes.
#[verifier::external_body]
pub struct BlockStore {
    store: std::sync::Arc<fvm_ipld_blockstore::MemoryBlockstore>,
}

/// What the block store holds: a map from identifier components to payload
/// bytes.
pub uninterp spec fn store_contents(s: BlockStore) -> Map<(u64, u64, Seq<u8>), Seq<u8>>;

impl BlockStore {
    /// Whether the store holds no blocks at all.
    pub open spec fn is_empty(self) -> bool {
        store_contents(self) == Map::<(u64, u64, Seq<u8>), Seq<u8>>::empty()
    }

    /// Relies on `fvm_ipld_blockstore::MemoryBlockstore::default`: a fresh
    /// store holds no blocks.
    #[verifier::external_body]
    pub fn new() -> (r: BlockStore)
        ensures
            r.is_empty(),
    {
        BlockStore { store: std::sync::Arc::new(fvm_ipld_blockstore::MemoryBlockstore::default()) }
    }

    /// Relies on `fvm_ipld_blockstore::MemoryBlockstore::put_keyed`, which
    /// inserts the block under its identifier and never fails, and on
    /// `cid::Cid::new_v1` with `multihash::Multihash::wrap`, which build one
    /// identifier per (codec, hash algorithm, digest) triple.
    #[verifier::external_body]
    pub fn put(&mut self, id: &ContentId, data: &Vec<u8>)
        requires
            id.wf(),
        ensures
            store_contents(*final(self)) == store_contents(*old(self)).insert(
                (id.codec, id.hash_alg, id.digest@),
                data@,
            ),
    {
        let mh = cid::multihash::Multihash::<64>::wrap(id.hash_alg, id.digest.as_slice()).unwrap();
        let cid = cid::Cid::new_v1(id.codec, mh);
        let _ = self.store.put_keyed(&cid, data.as_slice());
    }

    /// Relies on `fvm_ipld_blockstore::MemoryBlockstore::get`, which returns
    /// a copy of the block stored under the identifier, or nothing.
    #[verifier::external_body]
    pub fn get(&self, id: &ContentId) -> (r: Option<Vec<u8>>)
        requires
            id.wf(),
        ensures
            match r {
                Some(v) => store_contents(*self).contains_key((id.codec, id.hash_alg, id.digest@))
                    && v@ == store_contents(*self)[(id.codec, id.hash_alg, id.digest@)],
                None => !store_contents(*self).contains_key((id.codec, id.hash_alg, id.digest@)),
            },
    {
        let mh = cid::multihash::Multihash::<64>::wrap(id.hash_alg, id.digest.as_slice()).unwrap();
        let cid = cid::Cid::new_v1(id.codec, mh);
        self.store.get(&cid).unwrap_or(None)
    }
}

} // verus!
