//! The account ledger and the actor state machine.
//!
//! `ActorState` holds every account plus a running total balance, with the
//! invariant that the total equals the sum of all account balances.  Applying
//! a message either succeeds, leaving the ledger in the state the transition
//! function `step_state` prescribes, or is rejected, leaving the ledger
//! exactly as it was.  Only minting, burning and withdrawal change the total
//! balance.  Accounts are created lazily, with zero balance, by the first
//! message that touches them and succeeds.
use crate::account::{Account, AccountView, grant_perms};
use crate::content_id::{ContentId, IdView, clone_bytes};
use crate::messages::{Event, Message, Outcome, Reason};
use crate::pairmap::{
    keys_distinct, lemma_keys_distinct_push, lemma_keys_distinct_update, lemma_pair_map_domain,
    lemma_pair_map_index, lemma_pair_map_push, lemma_pair_map_update, pair_map,
};
use vstd::prelude::*;

verus! {

/// The mathematical value of the ledger: the total balance and the map from
/// account identifier to account state.
#[verifier::ext_equal]
pub ghost struct StateView {
    pub total: nat,
    pub accounts: Map<IdView, AccountView>,
}

/// The state of an account in the map, or the initial state for an account
/// not yet present: the get-or-default reading every message uses.
pub open spec fn acct_of(m: Map<IdView, AccountView>, id: IdView) -> AccountView {
    if m.contains_key(id) {
        m[id]
    } else {
        AccountView::initial()
    }
}

/// The balance an account identifier currently denotes, zero if absent.
pub open spec fn bal_of(m: Map<IdView, AccountView>, id: IdView) -> nat {
    acct_of(m, id).balance
}

/// The map with `id` present: lazy account creation made explicit.
pub open spec fn materialize(m: Map<IdView, AccountView>, id: IdView) -> Map<IdView, AccountView> {
    m.insert(id, acct_of(m, id))
}

/// One funded transfer of `amount` from `sender` to `to`, both accounts
/// materialized.  A self-transfer moves nothing.
pub open spec fn transfer_one(
    m: Map<IdView, AccountView>,
    sender: IdView,
    to: IdView,
    amount: u64,
) -> Map<IdView, AccountView> {
    if to == sender {
        materialize(m, sender)
    } else {
        let m1 = m.insert(
            sender,
            acct_of(m, sender).with_balance((bal_of(m, sender) - amount) as nat),
        );
        m1.insert(to, acct_of(m1, to).with_balance((bal_of(m1, to) + amount) as nat))
    }
}

/// A transfer: moves the amount if the sender's funds suffice, otherwise
/// changes nothing.  The total balance never changes.
pub open spec fn spec_transfer(s: StateView, sender: IdView, to: IdView, amount: u64) -> StateView {
    if bal_of(s.accounts, sender) >= amount {
        StateView { total: s.total, accounts: transfer_one(s.accounts, sender, to, amount) }
    } else {
        s
    }
}

/// A mint: increases the target balance and the total by the amount, unless
/// the total would leave the representable range.
pub open spec fn spec_mint(s: StateView, to: IdView, amount: u64) -> StateView {
    if s.total + amount <= u64::MAX {
        StateView {
            total: (s.total + amount) as nat,
            accounts: s.accounts.insert(
                to,
                acct_of(s.accounts, to).with_balance((bal_of(s.accounts, to) + amount) as nat),
            ),
        }
    } else {
        s
    }
}

/// A burn or withdrawal: decreases the source balance and the total by the
/// amount if the funds suffice, otherwise changes nothing.
pub open spec fn spec_debit(s: StateView, from: IdView, amount: u64) -> StateView {
    if bal_of(s.accounts, from) >= amount {
        StateView {
            total: (s.total - amount) as nat,
            accounts: s.accounts.insert(
                from,
                acct_of(s.accounts, from).with_balance((bal_of(s.accounts, from) - amount) as nat),
            ),
        }
    } else {
        s
    }
}

/// A data upsert on the acting account.
pub open spec fn spec_set_data(
    s: StateView,
    actor: IdView,
    key: Seq<char>,
    value: Seq<u8>,
) -> StateView {
    let a = acct_of(s.accounts, actor);
    StateView {
        total: s.total,
        accounts: s.accounts.insert(actor, AccountView { data: a.data.insert(key, value), ..a }),
    }
}

/// A delegation grant on `from` in favour of `to`.
pub open spec fn spec_delegate(
    s: StateView,
    from: IdView,
    to: IdView,
    perms: Seq<String>,
) -> StateView {
    let a = acct_of(s.accounts, from);
    StateView {
        total: s.total,
        accounts: s.accounts.insert(
            from,
            AccountView {
                delegations: a.delegations.insert(to, grant_perms(a.delegations_list(to), perms)),
                ..a
            },
        ),
    }
}

/// Removal of every permission `to` holds over `from`.
pub open spec fn spec_revoke(s: StateView, from: IdView, to: IdView) -> StateView {
    let a = acct_of(s.accounts, from);
    StateView {
        total: s.total,
        accounts: s.accounts.insert(
            from,
            AccountView { delegations: a.delegations.remove(to), ..a },
        ),
    }
}

/// A recorded vote on the voter's account.
pub open spec fn spec_vote(s: StateView, voter: IdView, proposal_id: u64, support: bool) -> StateView {
    let a = acct_of(s.accounts, voter);
    StateView {
        total: s.total,
        accounts: s.accounts.insert(
            voter,
            AccountView { votes: a.votes.insert(proposal_id, support), ..a },
        ),
    }
}

/// An optional index shifted by an offset.
pub open spec fn opt_shift(o: Option<int>, k: int) -> Option<int> {
    match o {
        None => None,
        Some(i) => Some(i + k),
    }
}

/// The index of the first transfer in the batch that would fail for want of
/// funds, were the batch applied strictly in order starting from sender
/// balance `bal`; nothing if every step is funded.  A self-transfer leaves
/// the running balance unchanged.
pub open spec fn batch_fail_at(bal: nat, ts: Seq<(ContentId, u64)>, sender: IdView) -> Option<int>
    decreases ts.len(),
{
    if ts.len() == 0 {
        None
    } else if bal < ts[0].1 {
        Some(0)
    } else {
        let nb = if ts[0].0@ == sender {
            bal
        } else {
            (bal - ts[0].1) as nat
        };
        match batch_fail_at(nb, ts.drop_first(), sender) {
            None => None,
            Some(i) => Some(i + 1),
        }
    }
}

/// The accounts after applying every transfer of a fully funded batch, in
/// order.
pub open spec fn batch_apply(
    m: Map<IdView, AccountView>,
    sender: IdView,
    ts: Seq<(ContentId, u64)>,
) -> Map<IdView, AccountView>
    decreases ts.len(),
{
    if ts.len() == 0 {
        m
    } else {
        batch_apply(transfer_one(m, sender, ts[0].0@, ts[0].1), sender, ts.drop_first())
    }
}

/// A batch of transfers, all-or-nothing: if every step would be funded when
/// applied in order, all of them happen; otherwise none does.
pub open spec fn spec_batch(s: StateView, sender: IdView, ts: Seq<(ContentId, u64)>) -> StateView {
    if batch_fail_at(bal_of(s.accounts, sender), ts, sender) is None {
        StateView {
            total: s.total,
            accounts: batch_apply(materialize(s.accounts, sender), sender, ts),
        }
    } else {
        s
    }
}

/// The transition function of the state machine: the ledger after applying
/// one message on behalf of `sender`.
pub open spec fn step_state(s: StateView, sender: IdView, msg: Message) -> StateView {
    match msg {
        Message::Transfer { to, amount } => spec_transfer(s, sender, to@, amount),
        Message::Mint { to, amount } => spec_mint(s, to@, amount),
        Message::Burn { from, amount } => spec_debit(s, from@, amount),
        Message::SetData { key, value } => spec_set_data(s, sender, key@, value@),
        Message::Delegate { from, to, permissions } => spec_delegate(s, from@, to@, permissions@),
        Message::Revoke { from, to } => spec_revoke(s, from@, to@),
        Message::BatchTransfer { transfers } => spec_batch(s, sender, transfers@),
        Message::QueryBalance { account } => StateView {
            total: s.total,
            accounts: materialize(s.accounts, account@),
        },
        Message::Vote { proposal_id, voter, support } => spec_vote(s, voter@, proposal_id, support),
        Message::Withdraw { from, amount } => spec_debit(s, from@, amount),
        Message::Custom { data } => s,
    }
}

/// What the returned outcome must say about applying `msg` to ledger `s` on
/// behalf of `sender`.
pub open spec fn outcome_ok(s: StateView, sender: IdView, msg: Message, r: Outcome) -> bool {
    match msg {
        Message::Transfer { to, amount } => if bal_of(s.accounts, sender) >= amount {
            r matches Outcome::Applied { events } && events@.len() == 0
        } else {
            r matches Outcome::Rejected { reason: Reason::InsufficientFunds { at_index } }
                && at_index == 0
        },
        Message::Mint { to, amount } => if s.total + amount <= u64::MAX {
            r matches Outcome::Applied { events } && events@.len() == 0
        } else {
            r matches Outcome::Rejected { reason: Reason::Overflow }
        },
        Message::Burn { from, amount } => if bal_of(s.accounts, from@) >= amount {
            r matches Outcome::Applied { events } && events@.len() == 0
        } else {
            r matches Outcome::Rejected { reason: Reason::InsufficientFunds { at_index } }
                && at_index == 0
        },
        Message::SetData { key, value } => r matches Outcome::Applied { events } && events@.len()
            == 0,
        Message::Delegate { from, to, permissions } => r matches Outcome::Applied { events }
            && events@.len() == 0,
        Message::Revoke { from, to } => r matches Outcome::Applied { events } && events@.len() == 0,
        Message::BatchTransfer { transfers } => match batch_fail_at(
            bal_of(s.accounts, sender),
            transfers@,
            sender,
        ) {
            None => r matches Outcome::Applied { events } && events@.len() == 0,
            Some(i) => r matches Outcome::Rejected {
                reason: Reason::InsufficientFunds { at_index },
            } && at_index as int == i,
        },
        Message::QueryBalance { account } => r matches Outcome::Applied { events } && events@.len()
            == 1 && (events@[0] matches Event::Balance { account: a, amount } && a@ == account@
            && amount as nat == bal_of(s.accounts, account@)),
        Message::Vote { proposal_id, voter, support } => r matches Outcome::Applied { events }
            && events@.len() == 0,
        Message::Withdraw { from, amount } => if bal_of(s.accounts, from@) >= amount {
            r matches Outcome::Applied { events } && events@.len() == 0
        } else {
            r matches Outcome::Rejected { reason: Reason::InsufficientFunds { at_index } }
                && at_index == 0
        },
        Message::Custom { data } => r matches Outcome::Applied { events } && events@.len() == 1
            && (events@[0] matches Event::Custom { data: d } && d@ == data@),
    }
}

/// The sum of all account balances in the list.
pub open spec fn sum_bal(s: Seq<(ContentId, Account)>) -> int
    decreases s.len(),
{
    if s.len() == 0 {
        0
    } else {
        sum_bal(s.drop_last()) + s.last().1.balance
    }
}

/// Balances are unsigned, so the sum never goes negative.
pub proof fn lemma_sum_bal_nonneg(s: Seq<(ContentId, Account)>)
    ensures
        sum_bal(s) >= 0,
    decreases s.len(),
{
    if s.len() > 0 {
        lemma_sum_bal_nonneg(s.drop_last());
    }
}

/// Each entry's balance is at most the sum of all balances.
pub proof fn lemma_sum_bal_entry(s: Seq<(ContentId, Account)>, i: int)
    requires
        0 <= i < s.len(),
    ensures
        s[i].1.balance <= sum_bal(s),
    decreases s.len(),
{
    if i == s.len() - 1 {
        lemma_sum_bal_nonneg(s.drop_last());
    } else {
        lemma_sum_bal_entry(s.drop_last(), i);
    }
}

/// Replacing one entry changes the sum by the difference of the balances.
pub proof fn lemma_sum_bal_update(s: Seq<(ContentId, Account)>, i: int, p: (ContentId, Account))
    requires
        0 <= i < s.len(),
    ensures
        sum_bal(s.update(i, p)) == sum_bal(s) - s[i].1.balance + p.1.balance,
    decreases s.len(),
{
    let t = s.update(i, p);
    if i == s.len() - 1 {
        assert(t.drop_last() =~= s.drop_last());
    } else {
        assert(t.drop_last() =~= s.drop_last().update(i, p));
        lemma_sum_bal_update(s.drop_last(), i, p);
        assert(t.last() == s.last());
    }
}

/// Appending an entry adds its balance to the sum.
pub proof fn lemma_sum_bal_push(s: Seq<(ContentId, Account)>, p: (ContentId, Account))
    ensures
        sum_bal(s.push(p)) == sum_bal(s) + p.1.balance,
{
    assert(s.push(p).drop_last() =~= s);
}

/// The account ledger: every account plus the running total balance.
pub struct ActorState {
    /// The total balance: always the sum of all account balances.
    pub balance: u64,
    /// The accounts, keyed by content identifier, keys pairwise distinct.
    pub accounts: Vec<(ContentId, Account)>,
}

impl View for ActorState {
    type V = StateView;

    open spec fn view(&self) -> StateView {
        StateView { total: self.balance as nat, accounts: pair_map(self.accounts@) }
    }
}

impl ActorState {
    /// Distinct keys and well-formed accounts.
    pub open spec fn accounts_ok(&self) -> bool {
        &&& keys_distinct(self.accounts@)
        &&& forall|i: int| 0 <= i < self.accounts@.len() ==> (#[trigger] self.accounts@[i].1).wf()
    }

    /// The ledger invariant: well-formed accounts and a total balance that
    /// equals the sum of all account balances.
    pub open spec fn wf(&self) -> bool {
        &&& self.accounts_ok()
        &&& sum_bal(self.accounts@) == self.balance as int
    }

    /// An empty ledger: no accounts, zero total balance.
    pub fn new() -> (r: Self)
        ensures
            r.wf(),
            r@ == (StateView { total: 0, accounts: Map::empty() }),
    {
        let r = ActorState { balance: 0, accounts: Vec::new() };
        proof {
            assert(r@ =~= (StateView { total: 0, accounts: Map::<IdView, AccountView>::empty() }));
        }
        r
    }

    /// Index of the entry for `id`, if the account exists.
    fn find_account(&self, id: &ContentId) -> (r: Option<usize>)
        ensures
            match r {
                Some(i) => i < self.accounts@.len() && self.accounts@[i as int].0@ == id@,
                None => forall|i: int|
                    0 <= i < self.accounts@.len() ==> self.accounts@[i].0@ != id@,
            },
    {
        let mut i: usize = 0;
        while i < self.accounts.len()
            invariant
                i <= self.accounts@.len(),
                forall|j: int| 0 <= j < i ==> self.accounts@[j].0@ != id@,
            decreases self.accounts@.len() - i,
        {
            if self.accounts[i].0.same_id(id) {
                return Some(i);
            }
            i += 1;
        }
        None
    }

    /// The balance `id` currently denotes, zero if the account is absent.
    pub fn current_balance(&self, id: &ContentId) -> (r: u64)
        requires
            self.accounts_ok(),
        ensures
            r as nat == bal_of(self@.accounts, id@),
    {
        match self.find_account(id) {
            Some(i) => {
                proof {
                    lemma_pair_map_index(self.accounts@, i as int);
                }
                self.accounts[i].1.balance
            },
            None => {
                proof {
                    lemma_pair_map_domain(self.accounts@, id@);
                }
                0
            },
        }
    }

    /// Get-or-create: the index of `id`'s entry, appending a fresh
    /// zero-balance account if none exists.
    fn ensure_account(&mut self, id: &ContentId) -> (i: usize)
        requires
            old(self).accounts_ok(),
        ensures
            final(self).accounts_ok(),
            final(self).balance == old(self).balance,
            sum_bal(final(self).accounts@) == sum_bal(old(self).accounts@),
            i < final(self).accounts@.len(),
            final(self).accounts@[i as int].0@ == id@,
            final(self).accounts@[i as int].1@ == acct_of(pair_map(old(self).accounts@), id@),
            pair_map(final(self).accounts@) == materialize(pair_map(old(self).accounts@), id@),
    {
        match self.find_account(id) {
            Some(i) => {
                proof {
                    lemma_pair_map_index(self.accounts@, i as int);
                    assert(pair_map(self.accounts@).insert(id@, self.accounts@[i as int].1@)
                        =~= pair_map(self.accounts@));
                }
                i
            },
            None => {
                let i = self.accounts.len();
                let key = id.clone();
                let fresh = Account::initial();
                proof {
                    lemma_pair_map_domain(self.accounts@, id@);
                    lemma_keys_distinct_push(self.accounts@, key, fresh);
                    lemma_pair_map_push(self.accounts@, key, fresh);
                    lemma_sum_bal_push(self.accounts@, (key, fresh));
                }
                self.accounts.push((key, fresh));
                i
            },
        }
    }

    /// Replace the balance of the entry at `i`, leaving its tables alone.
    fn set_balance_at(&mut self, i: usize, b: u64)
        requires
            old(self).accounts_ok(),
            i < old(self).accounts@.len(),
        ensures
            final(self).accounts_ok(),
            final(self).balance == old(self).balance,
            final(self).accounts@.len() == old(self).accounts@.len(),
            final(self).accounts@[i as int].0@ == old(self).accounts@[i as int].0@,
            final(self).accounts@[i as int].1@ == old(self).accounts@[i as int].1@.with_balance(
                b as nat,
            ),
            sum_bal(final(self).accounts@) == sum_bal(old(self).accounts@) - old(
                self,
            ).accounts@[i as int].1.balance + b,
            pair_map(final(self).accounts@) == pair_map(old(self).accounts@).insert(
                old(self).accounts@[i as int].0@,
                old(self).accounts@[i as int].1@.with_balance(b as nat),
            ),
    {
        let ghost pre = self.accounts@;
        let (key, mut acct) = self.accounts.remove(i);
        acct.balance = b;
        proof {
            lemma_keys_distinct_update(pre, i as int, key, acct);
            lemma_pair_map_update(pre, i as int, key, acct);
            lemma_sum_bal_update(pre, i as int, (key, acct));
        }
        self.accounts.insert(i, (key, acct));
        proof {
            assert(self.accounts@ =~= pre.update(i as int, (key, acct)));
            assert(acct@ =~= pre[i as int].1@.with_balance(b as nat));
        }
    }

    /// One funded transfer step, used by single transfers and by batches.
    /// The caller guarantees the funds.
    fn transfer_applied(&mut self, sender: &ContentId, to: &ContentId, amount: u64)
        requires
            old(self).accounts_ok(),
            sum_bal(old(self).accounts@) <= u64::MAX,
            bal_of(pair_map(old(self).accounts@), sender@) >= amount,
        ensures
            final(self).accounts_ok(),
            final(self).balance == old(self).balance,
            sum_bal(final(self).accounts@) == sum_bal(old(self).accounts@),
            pair_map(final(self).accounts@) == transfer_one(
                pair_map(old(self).accounts@),
                sender@,
                to@,
                amount,
            ),
    {
        let ghost m0 = pair_map(old(self).accounts@);
        let si = self.ensure_account(sender);
        if sender.same_id(to) {
            proof {
                assert(pair_map(self.accounts@) == transfer_one(m0, sender@, to@, amount));
            }
            return;
        }
        let sb = self.accounts[si].1.balance;
        proof {
            lemma_pair_map_index(self.accounts@, si as int);
            assert(sb as nat == bal_of(m0, sender@));
        }
        self.set_balance_at(si, sb - amount);
        let ghost m1 = pair_map(self.accounts@);
        proof {
            assert(m1 =~= m0.insert(
                sender@,
                acct_of(m0, sender@).with_balance((bal_of(m0, sender@) - amount) as nat),
            ));
            lemma_sum_bal_nonneg(self.accounts@);
        }
        let ti = self.ensure_account(to);
        let tb = self.accounts[ti].1.balance;
        proof {
            lemma_pair_map_index(self.accounts@, ti as int);
            assert(tb as nat == bal_of(m1, to@));
            lemma_sum_bal_entry(self.accounts@, ti as int);
        }
        self.set_balance_at(ti, tb + amount);
        proof {
            assert(pair_map(self.accounts@) =~= m1.insert(
                to@,
                acct_of(m1, to@).with_balance((bal_of(m1, to@) + amount) as nat),
            ));
        }
    }

    /// Move `amount` from `sender` to `to` if the sender's funds suffice;
    /// otherwise reject and leave the ledger unchanged.  The total balance
    /// never changes.
    pub fn transfer(&mut self, sender: &ContentId, to: &ContentId, amount: u64) -> (r: Outcome)
        requires
            old(self).wf(),
        ensures
            final(self).wf(),
            final(self)@ == spec_transfer(old(self)@, sender@, to@, amount),
            outcome_ok(
                old(self)@,
                sender@,
                (Message::Transfer { to: *to, amount }),
                r,
            ),
    {
        let bal = self.current_balance(sender);
        if bal < amount {
            return Outcome::Rejected { reason: Reason::InsufficientFunds { at_index: 0 } };
        }
        self.transfer_applied(sender, to, amount);
        proof {
            assert(self@ =~= spec_transfer(old(self)@, sender@, to@, amount));
        }
        Outcome::Applied { events: Vec::new() }
    }

    /// Mint `amount` new units onto `to`: both the account balance and the
    /// total balance grow by exactly `amount`, unless the total would
    /// overflow, in which case nothing changes.
    pub fn mint(&mut self, to: &ContentId, amount: u64) -> (r: Outcome)
        requires
            old(self).wf(),
        ensures
            final(self).wf(),
            final(self)@ == spec_mint(old(self)@, to@, amount),
            outcome_ok(old(self)@, to@, (Message::Mint { to: *to, amount }), r),
    {
        if amount > u64::MAX - self.balance {
            return Outcome::Rejected { reason: Reason::Overflow };
        }
        let ghost m0 = pair_map(old(self).accounts@);
        let i = self.ensure_account(to);
        let b = self.accounts[i].1.balance;
        proof {
            lemma_pair_map_index(self.accounts@, i as int);
            assert(b as nat == bal_of(m0, to@));
            lemma_sum_bal_entry(self.accounts@, i as int);
        }
        self.set_balance_at(i, b + amount);
        self.balance = self.balance + amount;
        proof {
            assert(pair_map(self.accounts@) =~= m0.insert(
                to@,
                acct_of(m0, to@).with_balance((bal_of(m0, to@) + amount) as nat),
            ));
            assert(self@ =~= spec_mint(old(self)@, to@, amount));
        }
        Outcome::Applied { events: Vec::new() }
    }

    /// Remove `amount` from `from` and from the total balance, if the funds
    /// suffice; otherwise reject and leave the ledger unchanged.
    fn debit(&mut self, from: &ContentId, amount: u64) -> (r: Outcome)
        requires
            old(self).wf(),
        ensures
            final(self).wf(),
            final(self)@ == spec_debit(old(self)@, from@, amount),
            if bal_of(old(self)@.accounts, from@) >= amount {
                r matches Outcome::Applied { events } && events@.len() == 0
            } else {
                r matches Outcome::Rejected { reason: Reason::InsufficientFunds { at_index } }
                    && at_index == 0
            },
    {
        let bal = self.current_balance(from);
        if bal < amount {
            return Outcome::Rejected { reason: Reason::InsufficientFunds { at_index: 0 } };
        }
        let ghost m0 = pair_map(old(self).accounts@);
        let i = self.ensure_account(from);
        let b = self.accounts[i].1.balance;
        proof {
            lemma_pair_map_index(self.accounts@, i as int);
            assert(b as nat == bal_of(m0, from@));
            lemma_sum_bal_entry(self.accounts@, i as int);
            lemma_sum_bal_nonneg(self.accounts@);
        }
        self.set_balance_at(i, b - amount);
        self.balance = self.balance - amount;
        proof {
            assert(pair_map(self.accounts@) =~= m0.insert(
                from@,
                acct_of(m0, from@).with_balance((bal_of(m0, from@) - amount) as nat),
            ));
            assert(self@ =~= spec_debit(old(self)@, from@, amount));
        }
        Outcome::Applied { events: Vec::new() }
    }

    /// Burn `amount` from `from`: account balance and total balance both
    /// shrink by exactly `amount`, or the message is rejected unchanged.
    pub fn burn(&mut self, from: &ContentId, amount: u64) -> (r: Outcome)
        requires
            old(self).wf(),
        ensures
            final(self).wf(),
            final(self)@ == spec_debit(old(self)@, from@, amount),
            outcome_ok(old(self)@, from@, (Message::Burn { from: *from, amount }), r),
    {
        self.debit(from, amount)
    }

    /// Withdraw `amount` from `from` to an external destination: the value
    /// leaves the ledger, so the total balance shrinks with the account's.
    pub fn withdraw(&mut self, from: &ContentId, amount: u64) -> (r: Outcome)
        requires
            old(self).wf(),
        ensures
            final(self).wf(),
            final(self)@ == spec_debit(old(self)@, from@, amount),
            outcome_ok(old(self)@, from@, (Message::Withdraw { from: *from, amount }), r),
    {
        self.debit(from, amount)
    }

    /// Upsert `key -> value` into the acting account's data map.
    pub fn set_data(&mut self, actor: &ContentId, key: String, value: Vec<u8>) -> (r: Outcome)
        requires
            old(self).wf(),
        ensures
            final(self).wf(),
            final(self)@ == spec_set_data(old(self)@, actor@, key@, value@),
            r matches Outcome::Applied { events } && events@.len() == 0,
    {
        let ghost m0 = pair_map(old(self).accounts@);
        let ghost kv = key@;
        let ghost vv = value@;
        let i = self.ensure_account(actor);
        let ghost pre = self.accounts@;
        let (k, mut acct) = self.accounts.remove(i);
        acct.set_data_entry(key, value);
        proof {
            lemma_keys_distinct_update(pre, i as int, k, acct);
            lemma_pair_map_update(pre, i as int, k, acct);
            lemma_sum_bal_update(pre, i as int, (k, acct));
        }
        self.accounts.insert(i, (k, acct));
        proof {
            assert(self.accounts@ =~= pre.update(i as int, (k, acct)));
            let a = acct_of(m0, actor@);
            assert(pair_map(self.accounts@) =~= m0.insert(
                actor@,
                AccountView { data: a.data.insert(kv, vv), ..a },
            ));
            assert(self@ =~= spec_set_data(old(self)@, actor@, kv, vv));
        }
        Outcome::Applied { events: Vec::new() }
    }

    /// Grant `to` the listed permissions over `from`.  Re-granting the same
    /// permissions is a no-op, not an error.
    pub fn delegate(&mut self, from: &ContentId, to: &ContentId, permissions: &Vec<String>) -> (r:
        Outcome)
        requires
            old(self).wf(),
        ensures
            final(self).wf(),
            final(self)@ == spec_delegate(old(self)@, from@, to@, permissions@),
            r matches Outcome::Applied { events } && events@.len() == 0,
    {
        let ghost m0 = pair_map(old(self).accounts@);
        let i = self.ensure_account(from);
        let ghost pre = self.accounts@;
        let (k, mut acct) = self.accounts.remove(i);
        acct.grant(to, permissions);
        proof {
            lemma_keys_distinct_update(pre, i as int, k, acct);
            lemma_pair_map_update(pre, i as int, k, acct);
            lemma_sum_bal_update(pre, i as int, (k, acct));
        }
        self.accounts.insert(i, (k, acct));
        proof {
            assert(self.accounts@ =~= pre.update(i as int, (k, acct)));
            let a = acct_of(m0, from@);
            assert(pair_map(self.accounts@) =~= m0.insert(
                from@,
                AccountView {
                    delegations: a.delegations.insert(
                        to@,
                        grant_perms(a.delegations_list(to@), permissions@),
                    ),
                    ..a
                },
            ));
            assert(self@ =~= spec_delegate(old(self)@, from@, to@, permissions@));
        }
        Outcome::Applied { events: Vec::new() }
    }

    /// Remove every permission granted to `to` over `from`.  Revoking an
    /// absent delegation is a no-op, not an error.
    pub fn revoke(&mut self, from: &ContentId, to: &ContentId) -> (r: Outcome)
        requires
            old(self).wf(),
        ensures
            final(self).wf(),
            final(self)@ == spec_revoke(old(self)@, from@, to@),
            r matches Outcome::Applied { events } && events@.len() == 0,
    {
        let ghost m0 = pair_map(old(self).accounts@);
        let i = self.ensure_account(from);
        let ghost pre = self.accounts@;
        let (k, mut acct) = self.accounts.remove(i);
        acct.revoke(to);
        proof {
            lemma_keys_distinct_update(pre, i as int, k, acct);
            lemma_pair_map_update(pre, i as int, k, acct);
            lemma_sum_bal_update(pre, i as int, (k, acct));
        }
        self.accounts.insert(i, (k, acct));
        proof {
            assert(self.accounts@ =~= pre.update(i as int, (k, acct)));
            let a = acct_of(m0, from@);
            assert(pair_map(self.accounts@) =~= m0.insert(
                from@,
                AccountView { delegations: a.delegations.remove(to@), ..a },
            ));
            assert(self@ =~= spec_revoke(old(self)@, from@, to@));
        }
        Outcome::Applied { events: Vec::new() }
    }

    /// Record `voter`'s boolean vote on `proposal_id`, last write wins.
    pub fn vote(&mut self, voter: &ContentId, proposal_id: u64, support: bool) -> (r: Outcome)
        requires
            old(self).wf(),
        ensures
            final(self).wf(),
            final(self)@ == spec_vote(old(self)@, voter@, proposal_id, support),
            r matches Outcome::Applied { events } && events@.len() == 0,
    {
        let ghost m0 = pair_map(old(self).accounts@);
        let i = self.ensure_account(voter);
        let ghost pre = self.accounts@;
        let (k, mut acct) = self.accounts.remove(i);
        acct.set_vote(proposal_id, support);
        proof {
            lemma_keys_distinct_update(pre, i as int, k, acct);
            lemma_pair_map_update(pre, i as int, k, acct);
            lemma_sum_bal_update(pre, i as int, (k, acct));
        }
        self.accounts.insert(i, (k, acct));
        proof {
            assert(self.accounts@ =~= pre.update(i as int, (k, acct)));
            let a = acct_of(m0, voter@);
            assert(pair_map(self.accounts@) =~= m0.insert(
                voter@,
                AccountView { votes: a.votes.insert(proposal_id, support), ..a },
            ));
            assert(self@ =~= spec_vote(old(self)@, voter@, proposal_id, support));
        }
        Outcome::Applied { events: Vec::new() }
    }

    /// Read `account`'s balance.  The account is created at zero balance if
    /// it was never seen; the read never fails.
    pub fn query_balance(&mut self, account: &ContentId) -> (r: Outcome)
        requires
            old(self).wf(),
        ensures
            final(self).wf(),
            final(self)@ == (StateView {
                total: old(self)@.total,
                accounts: materialize(old(self)@.accounts, account@),
            }),
            outcome_ok(old(self)@, account@, (Message::QueryBalance { account: *account }), r),
    {
        let ghost m0 = pair_map(old(self).accounts@);
        let i = self.ensure_account(account);
        let b = self.accounts[i].1.balance;
        proof {
            lemma_pair_map_index(self.accounts@, i as int);
            assert(b as nat == bal_of(m0, account@));
            assert(self@ =~= (StateView {
                total: old(self)@.total,
                accounts: materialize(old(self)@.accounts, account@),
            }));
        }
        let mut events: Vec<Event> = Vec::new();
        events.push(Event::Balance { account: account.clone(), amount: b });
        Outcome::Applied { events }
    }

    /// Apply a batch of transfers from `sender` as an all-or-nothing unit:
    /// if, applied strictly in order, some transfer would lack funds, the
    /// whole batch is rejected with the index of that transfer and the
    /// ledger is left exactly as it was; otherwise every transfer happens.
    /// The total balance never changes.
    pub fn batch_transfer(&mut self, sender: &ContentId, transfers: &Vec<(ContentId, u64)>) -> (r:
        Outcome)
        requires
            old(self).wf(),
        ensures
            final(self).wf(),
            final(self)@ == spec_batch(old(self)@, sender@, transfers@),
            outcome_ok(
                old(self)@,
                sender@,
                (Message::BatchTransfer { transfers: *transfers }),
                r,
            ),
    {
        let ghost ts = transfers@;
        proof {
            assert(ts.skip(0) =~= ts);
        }
        let bal0 = self.current_balance(sender);
        let mut bal: u64 = bal0;
        let mut k: usize = 0;
        while k < transfers.len()
            invariant
                k <= ts.len(),
                ts == transfers@,
                *self == *old(self),
                old(self).wf(),
                bal0 as nat == bal_of(pair_map(self.accounts@), sender@),
                batch_fail_at(bal0 as nat, ts, sender@) == opt_shift(
                    batch_fail_at(bal as nat, ts.skip(k as int), sender@),
                    k as int,
                ),
            decreases ts.len() - k,
        {
            proof {
                assert(ts.skip(k as int)[0] == ts[k as int]);
                assert(ts.skip(k as int).drop_first() =~= ts.skip(k as int + 1));
            }
            let to = &transfers[k].0;
            let amt = transfers[k].1;
            if bal < amt {
                proof {
                    assert(batch_fail_at(bal as nat, ts.skip(k as int), sender@) == Some(0int));
                    assert(batch_fail_at(bal0 as nat, ts, sender@) == Some(k as int));
                }
                return Outcome::Rejected {
                    reason: Reason::InsufficientFunds { at_index: k },
                };
            }
            if !to.same_id(sender) {
                bal = bal - amt;
            }
            k += 1;
        }
        proof {
            assert(ts.skip(ts.len() as int) =~= Seq::<(ContentId, u64)>::empty());
            assert(batch_fail_at(bal as nat, ts.skip(k as int), sender@) is None);
            assert(batch_fail_at(bal0 as nat, ts, sender@) is None);
        }
        let ghost m0 = pair_map(old(self).accounts@);
        self.ensure_account(sender);
        let ghost mbase = pair_map(self.accounts@);
        proof {
            assert(ts.skip(0) =~= ts);
        }
        let mut k: usize = 0;
        while k < transfers.len()
            invariant
                k <= ts.len(),
                ts == transfers@,
                self.accounts_ok(),
                self.balance == old(self).balance,
                old(self).wf(),
                sum_bal(self.accounts@) == old(self).balance as int,
                m0 == pair_map(old(self).accounts@),
                mbase == materialize(m0, sender@),
                batch_apply(mbase, sender@, ts) == batch_apply(
                    pair_map(self.accounts@),
                    sender@,
                    ts.skip(k as int),
                ),
                batch_fail_at(
                    bal_of(pair_map(self.accounts@), sender@),
                    ts.skip(k as int),
                    sender@,
                ) is None,
            decreases ts.len() - k,
        {
            proof {
                assert(ts.skip(k as int)[0] == ts[k as int]);
                assert(ts.skip(k as int).drop_first() =~= ts.skip(k as int + 1));
            }
            let to = &transfers[k].0;
            let amt = transfers[k].1;
            let ghost prev = pair_map(self.accounts@);
            proof {
                assert(bal_of(prev, sender@) >= amt);
            }
            self.transfer_applied(sender, to, amt);
            proof {
                let now = pair_map(self.accounts@);
                assert(now == transfer_one(prev, sender@, to@, amt));
                if to@ == sender@ {
                    assert(bal_of(now, sender@) == bal_of(prev, sender@));
                } else {
                    assert(bal_of(now, sender@) == bal_of(prev, sender@) - amt);
                }
            }
            k += 1;
        }
        proof {
            assert(ts.skip(ts.len() as int) =~= Seq::<(ContentId, u64)>::empty());
            assert(pair_map(self.accounts@) == batch_apply(mbase, sender@, ts));
            assert(self@ =~= spec_batch(old(self)@, sender@, ts));
        }
        Outcome::Applied { events: Vec::new() }
    }

    /// Create the account for `id` at zero balance if it does not exist;
    /// report whether it was newly created.
    pub fn register(&mut self, id: &ContentId) -> (created: bool)
        requires
            old(self).wf(),
        ensures
            final(self).wf(),
            final(self)@ == (StateView {
                total: old(self)@.total,
                accounts: materialize(old(self)@.accounts, id@),
            }),
            created == !old(self)@.accounts.contains_key(id@),
    {
        let existed = match self.find_account(id) {
            Some(_) => true,
            None => false,
        };
        proof {
            lemma_pair_map_domain(self.accounts@, id@);
        }
        let _ = self.ensure_account(id);
        proof {
            assert(self@ =~= (StateView {
                total: old(self)@.total,
                accounts: materialize(old(self)@.accounts, id@),
            }));
        }
        !existed
    }

    /// Apply one message on behalf of `sender`: the heart of the state
    /// machine.  The ledger moves to exactly the state `step_state`
    /// prescribes, and the outcome reports success or the specific failure.
    pub fn handle_message(&mut self, sender: &ContentId, msg: &Message) -> (r: Outcome)
        requires
            old(self).wf(),
        ensures
            final(self).wf(),
            final(self)@ == step_state(old(self)@, sender@, *msg),
            outcome_ok(old(self)@, sender@, *msg, r),
    {
        match msg {
            Message::Transfer { to, amount } => self.transfer(sender, to, *amount),
            Message::Mint { to, amount } => self.mint(to, *amount),
            Message::Burn { from, amount } => self.burn(from, *amount),
            Message::SetData { key, value } => self.set_data(sender, key.clone(), clone_bytes(value)),
            Message::Delegate { from, to, permissions } => self.delegate(from, to, permissions),
            Message::Revoke { from, to } => self.revoke(from, to),
            Message::BatchTransfer { transfers } => self.batch_transfer(sender, transfers),
            Message::QueryBalance { account } => self.query_balance(account),
            Message::Vote { proposal_id, voter, support } => self.vote(voter, *proposal_id, *support),
            Message::Withdraw { from, amount } => self.withdraw(from, *amount),
            Message::Custom { data } => {
                let mut events: Vec<Event> = Vec::new();
                events.push(Event::Custom { data: clone_bytes(data) });
                Outcome::Applied { events }
            },
        }
    }
}

/// Whether a message is one of those that must leave the total balance
/// unchanged: everything but minting, burning and withdrawal.
pub open spec fn conserving(msg: Message) -> bool {
    match msg {
        Message::Mint { .. } => false,
        Message::Burn { .. } => false,
        Message::Withdraw { .. } => false,
        _ => true,
    }
}

/// The ledger after applying a whole sequence of messages in order.
pub open spec fn run_msgs(s: StateView, sender: IdView, msgs: Seq<Message>) -> StateView
    decreases msgs.len(),
{
    if msgs.len() == 0 {
        s
    } else {
        run_msgs(step_state(s, sender, msgs[0]), sender, msgs.drop_first())
    }
}

/// One conserving message leaves the total balance unchanged.
pub proof fn lemma_step_conserves_total(s: StateView, sender: IdView, msg: Message)
    requires
        conserving(msg),
    ensures
        step_state(s, sender, msg).total == s.total,
{
}

/// Conservation: a sequence made of transfers, batch transfers, data
/// writes, delegations, revocations, votes, balance queries and custom
/// messages leaves the total balance exactly where it started.
pub proof fn lemma_conservation(s: StateView, sender: IdView, msgs: Seq<Message>)
    requires
        forall|i: int| 0 <= i < msgs.len() ==> conserving(#[trigger] msgs[i]),
    ensures
        run_msgs(s, sender, msgs).total == s.total,
    decreases msgs.len(),
{
    if msgs.len() > 0 {
        lemma_step_conserves_total(s, sender, msgs[0]);
        assert(forall|i: int|
            0 <= i < msgs.drop_first().len() ==> conserving(#[trigger] msgs.drop_first()[i]));
        lemma_conservation(step_state(s, sender, msgs[0]), sender, msgs.drop_first());
    }
}

/// Minting delta: a funded mint raises the target balance and the total by
/// exactly the amount; a mint that would overflow the total changes nothing.
pub proof fn lemma_mint_delta(s: StateView, to: IdView, amount: u64)
    ensures
        s.total + amount <= u64::MAX ==> spec_mint(s, to, amount).total == s.total + amount
            && bal_of(spec_mint(s, to, amount).accounts, to) == bal_of(s.accounts, to) + amount,
        s.total + amount > u64::MAX ==> spec_mint(s, to, amount) == s,
{
}

/// Burning delta: a funded burn lowers the source balance and the total by
/// exactly the amount; an underfunded burn leaves the ledger identical.
/// The hypothesis that the total covers the balance holds of every ledger
/// the library builds, where the total is the sum of all balances.
pub proof fn lemma_burn_delta(s: StateView, from: IdView, amount: u64)
    requires
        bal_of(s.accounts, from) <= s.total,
    ensures
        bal_of(s.accounts, from) >= amount ==> spec_debit(s, from, amount).total == s.total
            - amount && bal_of(spec_debit(s, from, amount).accounts, from) == bal_of(
            s.accounts,
            from,
        ) - amount,
        bal_of(s.accounts, from) < amount ==> spec_debit(s, from, amount) == s,
{
}

/// Idempotent delegation: granting the same permissions to the same
/// delegate twice yields exactly the ledger that one grant yields.
pub proof fn lemma_delegate_idempotent(s: StateView, from: IdView, to: IdView, perms: Seq<String>)
    ensures
        spec_delegate(spec_delegate(s, from, to, perms), from, to, perms) == spec_delegate(
            s,
            from,
            to,
            perms,
        ),
{
    let s1 = spec_delegate(s, from, to, perms);
    let a0 = acct_of(s.accounts, from);
    let l0 = a0.delegations_list(to);
    let granted = grant_perms(l0, perms);
    let a1 = acct_of(s1.accounts, from);
    assert(a1.delegations_list(to) == granted);
    assert(forall|i: int| 0 <= i < perms.len() ==> crate::account::has_perm(
        granted,
        #[trigger] perms[i]@,
    )) by {
        assert forall|i: int| 0 <= i < perms.len() implies crate::account::has_perm(
            granted,
            #[trigger] perms[i]@,
        ) by {
            crate::account::lemma_has_perm_grant(l0, perms, perms[i]@);
        }
    }
    crate::account::lemma_grant_perms_noop(granted, perms);
    assert(a1.delegations.insert(to, granted) =~= a1.delegations);
    assert((AccountView { delegations: a1.delegations.insert(to, granted), ..a1 }) =~= a1);
    assert(s1.accounts.insert(from, a1) =~= s1.accounts);
    assert(spec_delegate(s1, from, to, perms) =~= s1);
}

/// Revoking a delegation that was never granted leaves an existing account,
/// and with it the whole ledger, exactly as it was.
pub proof fn lemma_revoke_without_grant(s: StateView, from: IdView, to: IdView)
    requires
        s.accounts.contains_key(from),
        !s.accounts[from].delegations.contains_key(to),
    ensures
        spec_revoke(s, from, to) == s,
{
    let a = acct_of(s.accounts, from);
    assert(a.delegations.remove(to) =~= a.delegations);
    assert((AccountView { delegations: a.delegations.remove(to), ..a }) =~= a);
    assert(s.accounts.insert(from, a) =~= s.accounts);
    assert(spec_revoke(s, from, to) =~= s);
}

/// Lazy account creation: a balance query on an unseen account reads zero
/// and only materializes the fresh zero-balance account; it never fails.
pub proof fn lemma_query_balance_unseen(s: StateView, x: IdView)
    requires
        !s.accounts.contains_key(x),
    ensures
        bal_of(s.accounts, x) == 0,
        materialize(s.accounts, x) == s.accounts.insert(x, AccountView::initial()),
{
}

} // verus!
