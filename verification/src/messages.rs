//! The closed set of ledger messages and the typed outcome of applying one.
use crate::content_id::ContentId;
use vstd::prelude::*;

verus! {

/// One requested state change.  Immutable; the state machine borrows it
/// read-only.  Variants that carry no `from` act on the implicit sender (the
/// acting account handed to `handle_message`).
pub enum Message {
    /// Move `amount` from the acting account's balance to `to`'s balance.
    Transfer { to: ContentId, amount: u64 },
    /// Increase `to`'s balance and the total balance by `amount`.
    Mint { to: ContentId, amount: u64 },
    /// Decrease `from`'s balance and the total balance by `amount`, if the
    /// funds suffice.
    Burn { from: ContentId, amount: u64 },
    /// Upsert `key -> value` into the acting account's data map.
    SetData { key: String, value: Vec<u8> },
    /// Grant `to` the listed permissions over `from`.
    Delegate { from: ContentId, to: ContentId, permissions: Vec<String> },
    /// Remove all permissions granted to `to` over `from`.
    Revoke { from: ContentId, to: ContentId },
    /// Apply a sequence of transfers from the acting account as an
    /// all-or-nothing unit.
    BatchTransfer { transfers: Vec<(ContentId, u64)> },
    /// Read `account`'s balance (creating the account at zero if absent).
    QueryBalance { account: ContentId },
    /// Record `voter`'s boolean vote on `proposal_id`.
    Vote { proposal_id: u64, voter: ContentId, support: bool },
    /// Decrease `from`'s balance and the total balance by `amount`, if the
    /// funds suffice: value leaving the ledger for an external destination.
    Withdraw { from: ContentId, amount: u64 },
    /// Opaque extension bytes; receipt is recorded, nothing interpreted.
    Custom { data: Vec<u8> },
}

/// Why a message was rejected.
pub enum Reason {
    /// A balance was smaller than the amount to be moved.  For a batch,
    /// `at_index` is the position of the first transfer that would fail when
    /// the batch is applied in order; for a single message it is zero.
    InsufficientFunds { at_index: usize },
    /// Minting the amount would push the total balance past the
    /// representable maximum.
    Overflow,
}

/// What an applied message made observable.
pub enum Event {
    /// The balance read by a `QueryBalance`.
    Balance { account: ContentId, amount: u64 },
    /// The opaque bytes of a received `Custom` message.
    Custom { data: Vec<u8> },
}

/// The typed result of applying one message.  A rejected message leaves the
/// ledger exactly as it was.
pub enum Outcome {
    Applied { events: Vec<Event> },
    Rejected { reason: Reason },
}

} // verus!
