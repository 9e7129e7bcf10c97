//! A minimal actor-based ledger over a content-addressed block store.
//!
//! Accounts (actors) are identified by content-derived identifiers, hold a
//! balance and keyed metadata, and all state transitions happen by applying
//! discrete messages against the ledger.  The ledger maintains a running
//! `totalBalance` that equals the sum of all account balances; only minting,
//! burning and withdrawal change it.  Stored payloads are content-addressed:
//! identical bytes always receive the identical identifier.
use vstd::prelude::*;

pub mod account;
pub mod actor_state;
pub mod blockstore;
pub mod content_id;
pub mod dao;
pub mod messages;
pub mod pairmap;
pub mod provenance;
pub mod storage;

use crate::actor_state::{ActorState, StateView, materialize, outcome_ok, step_state};
use crate::blockstore::{BlockStore, store_contents};
use crate::content_id::{
    ContentId, DAG_CBOR, IdView, SHA2_256, id_parse_of, id_text_of, id_to_text, id_from_text,
    sha256_digest, sha256_of,
};
use crate::messages::{Message, Outcome};

verus! {

/// Admission limiter: a static size check gating what payloads the store
/// accepts.  A payload is admitted exactly when its length does not exceed
/// the configured limit.
pub struct NoopLimiter {
    limit: usize,
}

impl NoopLimiter {
    /// The configured admission limit, in bytes.
    pub closed spec fn limit(&self) -> usize {
        self.limit
    }

    pub fn new(limit: usize) -> (r: Self)
        ensures
            r.limit() == limit,
    {
        NoopLimiter { limit }
    }

    /// Admission check: true exactly when a payload of `data_size` bytes is
    /// within the configured limit.
    pub fn check_limit(&self, data_size: usize) -> (r: bool)
        ensures
            r == (data_size <= self.limit()),
    {
        data_size <= self.limit
    }
}

/// Why a machine operation failed.
#[derive(Debug, Clone, Copy, PartialEq, Eq)]
pub enum MachineError {
    /// The payload is larger than the admission limit; nothing was stored.
    CapacityExceeded,
    /// No block is stored under the identifier.
    NotFound,
    /// The text is not a well-formed content identifier.
    MalformedId,
}

/// The identifier components every stored payload is keyed by: DAG-CBOR
/// codec, SHA2-256 hash, and the digest of the bytes.
pub open spec fn stored_key(data: Seq<u8>) -> (u64, u64, Seq<u8>) {
    (DAG_CBOR, SHA2_256, sha256_of(data))
}

/// The identifier a payload is stored under, as a mathematical value.  It is
/// a function of the bytes alone: identical payloads always receive the
/// identical identifier.
pub open spec fn stored_id(data: Seq<u8>) -> IdView {
    IdView { codec: DAG_CBOR, hash_alg: SHA2_256, digest: sha256_of(data) }
}

/// The top-level coordinator: one account ledger, one content-addressed
/// block store, and the admission limiter in front of it.
pub struct MyMachine {
    blockstore: BlockStore,
    limiter: NoopLimiter,
    actors: ActorState,
}

impl MyMachine {
    /// The blocks currently stored, by identifier components.
    pub closed spec fn contents(&self) -> Map<(u64, u64, Seq<u8>), Seq<u8>> {
        store_contents(self.blockstore)
    }

    /// The admission limit, in bytes.
    pub closed spec fn limit(&self) -> usize {
        self.limiter.limit()
    }

    /// The ledger's mathematical value.
    pub closed spec fn ledger(&self) -> StateView {
        self.actors@
    }

    /// The ledger invariant holds.
    pub closed spec fn wf(&self) -> bool {
        self.actors.wf()
    }

    /// A machine over the given store, with the given admission limit and an
    /// empty ledger.
    pub fn new(blockstore: BlockStore, limit: usize) -> (r: Self)
        ensures
            r.wf(),
            r.contents() == store_contents(blockstore),
            r.limit() == limit,
            r.ledger() == (StateView { total: 0, accounts: Map::empty() }),
    {
        MyMachine { blockstore, limiter: NoopLimiter::new(limit), actors: ActorState::new() }
    }

    /// Content-address and store a payload, and create a zero-balance
    /// account under the resulting identifier if none exists; report the
    /// identifier and whether the account is new.  A payload over the
    /// admission limit is rejected untouched, and that is the only failure.
    pub fn store_and_register(&mut self, data: Vec<u8>) -> (r: Result<(ContentId, bool), MachineError>)
        requires
            old(self).wf(),
        ensures
            final(self).wf(),
            final(self).limit() == old(self).limit(),
            r is Ok <==> data@.len() <= old(self).limit(),
            match r {
                Ok((id, created)) => id@ == stored_id(data@) && id.wf() && final(self).contents()
                    == old(self).contents().insert(stored_key(data@), data@) && created == !old(
                    self,
                ).ledger().accounts.contains_key(stored_id(data@)) && final(self).ledger() == (
                StateView {
                    total: old(self).ledger().total,
                    accounts: materialize(old(self).ledger().accounts, stored_id(data@)),
                }),
                Err(e) => e matches MachineError::CapacityExceeded && final(self).contents() == old(
                    self,
                ).contents() && final(self).ledger() == old(self).ledger(),
            },
    {
        if !self.limiter.check_limit(data.len()) {
            return Err(MachineError::CapacityExceeded);
        }
        let digest = sha256_digest(&data);
        let id = ContentId { codec: DAG_CBOR, hash_alg: SHA2_256, digest };
        let created = self.actors.register(&id);
        self.blockstore.put(&id, &data);
        Ok((id, created))
    }

    /// Content-address and store a payload, returning the identifier's
    /// canonical text; rejects payloads over the admission limit untouched.
    /// Identical payloads always yield the identical text.
    pub fn store_data(&mut self, data: Vec<u8>) -> (r: Result<String, MachineError>)
        requires
            old(self).wf(),
        ensures
            final(self).wf(),
            final(self).limit() == old(self).limit(),
            r is Ok <==> data@.len() <= old(self).limit(),
            match r {
                Ok(s) => s@ == id_text_of(DAG_CBOR, SHA2_256, sha256_of(data@)) && id_parse_of(s@)
                    == Some(stored_id(data@)) && final(self).contents() == old(
                    self,
                ).contents().insert(stored_key(data@), data@) && final(self).ledger() == (StateView {
                    total: old(self).ledger().total,
                    accounts: materialize(old(self).ledger().accounts, stored_id(data@)),
                }),
                Err(e) => e matches MachineError::CapacityExceeded && final(self).contents() == old(
                    self,
                ).contents() && final(self).ledger() == old(self).ledger(),
            },
    {
        match self.store_and_register(data) {
            Ok((id, _created)) => Ok(id_to_text(&id)),
            Err(e) => Err(e),
        }
    }

    /// Fetch the payload stored under an identifier's text form.  Fails with
    /// `MalformedId` on text that is no identifier and with `NotFound` when
    /// nothing is stored under it; otherwise returns exactly the stored
    /// bytes.
    pub fn retrieve_data(&self, cid_str: String) -> (r: Result<Vec<u8>, MachineError>)
        ensures
            match r {
                Ok(v) => id_parse_of(cid_str@) matches Some(id) && self.contents().contains_key(
                    (id.codec, id.hash_alg, id.digest),
                ) && v@ == self.contents()[(id.codec, id.hash_alg, id.digest)],
                Err(e) => match e {
                    MachineError::MalformedId => id_parse_of(cid_str@) is None,
                    MachineError::NotFound => id_parse_of(cid_str@) matches Some(id)
                        && !self.contents().contains_key((id.codec, id.hash_alg, id.digest)),
                    MachineError::CapacityExceeded => false,
                },
            },
    {
        match id_from_text(cid_str.as_str()) {
            None => Err(MachineError::MalformedId),
            Some(id) => match self.blockstore.get(&id) {
                Some(v) => Ok(v),
                None => Err(MachineError::NotFound),
            },
        }
    }

    /// Apply one message against the machine's own ledger, on behalf of the
    /// acting account.  The stored blocks are untouched.
    pub fn apply(&mut self, sender: &ContentId, msg: &Message) -> (r: Outcome)
        requires
            old(self).wf(),
        ensures
            final(self).wf(),
            final(self).ledger() == step_state(old(self).ledger(), sender@, *msg),
            outcome_ok(old(self).ledger(), sender@, *msg, r),
            final(self).contents() == old(self).contents(),
            final(self).limit() == old(self).limit(),
    {
        self.actors.handle_message(sender, msg)
    }
}

/// Content addressing is deterministic: identical bytes are stored under
/// the identical identifier.
pub proof fn lemma_content_addressing_deterministic(d1: Seq<u8>, d2: Seq<u8>)
    requires
        d1 == d2,
    ensures
        stored_id(d1) == stored_id(d2),
        stored_key(d1) == stored_key(d2),
{
}

/// Content addressing round trip: once a payload is stored, any identifier
/// text that parses to its stored identifier retrieves exactly that payload.
/// `store_data` guarantees of its returned text that it parses so.
pub proof fn lemma_store_retrieve_roundtrip(
    contents: Map<(u64, u64, Seq<u8>), Seq<u8>>,
    data: Seq<u8>,
    s: Seq<char>,
)
    requires
        id_parse_of(s) == Some(stored_id(data)),
    ensures
        id_parse_of(s) matches Some(id) && contents.insert(stored_key(data), data).contains_key(
            (id.codec, id.hash_alg, id.digest),
        ) && contents.insert(stored_key(data), data)[(id.codec, id.hash_alg, id.digest)] == data,
{
}

} // verus!
