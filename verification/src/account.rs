//! Per-account state: a balance, delegated permissions, keyed data blobs and
//! recorded votes.
//!
//! Each table is an association list with pairwise-distinct keys, interpreted
//! as a map by the functions of `pairmap`.  Accounts are created lazily with
//! zero balance and empty tables, and are never deleted.
use crate::content_id::{ContentId, IdView};
use crate::pairmap::{
    keys_distinct, lemma_keys_distinct_push, lemma_keys_distinct_update, lemma_pair_map_domain,
    lemma_pair_map_index, lemma_pair_map_push, lemma_pair_map_remove, lemma_pair_map_update,
    pair_map,
};
use vstd::prelude::*;

verus! {

/// The mathematical value of an `Account`.
#[verifier::ext_equal]
pub ghost struct AccountView {
    pub balance: nat,
    /// Which accounts may act for this one, with which permission strings.
    pub delegations: Map<IdView, Seq<String>>,
    /// Keyed data blobs, last write wins.
    pub data: Map<Seq<char>, Seq<u8>>,
    /// Recorded votes: proposal id to boolean support, last write wins.
    pub votes: Map<u64, bool>,
}

impl AccountView {
    /// The state a lazily created account starts in.
    pub open spec fn initial() -> AccountView {
        AccountView {
            balance: 0,
            delegations: Map::empty(),
            data: Map::empty(),
            votes: Map::empty(),
        }
    }

    /// The same account with another balance.
    pub open spec fn with_balance(self, b: nat) -> AccountView {
        AccountView { balance: b, ..self }
    }

    /// The permission list delegated to `to`, empty if none was granted.
    pub open spec fn delegations_list(self, to: IdView) -> Seq<String> {
        if self.delegations.contains_key(to) {
            self.delegations[to]
        } else {
            Seq::empty()
        }
    }
}

/// Whether the permission list holds the permission, compared by content.
pub open spec fn has_perm(l: Seq<String>, p: Seq<char>) -> bool {
    exists|i: int| 0 <= i < l.len() && l[i]@ == p
}

/// The set of permission strings a permission list denotes.
pub open spec fn perm_set(l: Seq<String>) -> Set<Seq<char>> {
    Set::new(|p: Seq<char>| has_perm(l, p))
}

/// The permission list after granting each listed permission in order,
/// appending only those not yet present.
pub open spec fn grant_perms(l: Seq<String>, ps: Seq<String>) -> Seq<String>
    decreases ps.len(),
{
    if ps.len() == 0 {
        l
    } else {
        let l1 = if has_perm(l, ps[0]@) {
            l
        } else {
            l.push(ps[0])
        };
        grant_perms(l1, ps.drop_first())
    }
}

/// One account: balance, delegations, data blobs, votes.
pub struct Account {
    pub balance: u64,
    pub delegations: Vec<(ContentId, Vec<String>)>,
    pub data: Vec<(String, Vec<u8>)>,
    pub votes: Vec<(u64, bool)>,
}

impl View for Account {
    type V = AccountView;

    open spec fn view(&self) -> AccountView {
        AccountView {
            balance: self.balance as nat,
            delegations: pair_map(self.delegations@),
            data: pair_map(self.data@),
            votes: pair_map(self.votes@),
        }
    }
}

impl Account {
    /// Every table keyed by pairwise-distinct keys.
    pub open spec fn wf(&self) -> bool {
        &&& keys_distinct(self.delegations@)
        &&& keys_distinct(self.data@)
        &&& keys_distinct(self.votes@)
    }

    /// A fresh zero-balance account with empty tables.
    pub fn initial() -> (r: Account)
        ensures
            r.wf(),
            r@ == AccountView::initial(),
            r.balance == 0,
    {
        let r = Account {
            balance: 0,
            delegations: Vec::new(),
            data: Vec::new(),
            votes: Vec::new(),
        };
        proof {
            assert(r@ =~= AccountView::initial());
        }
        r
    }

    /// Index of the delegation entry for `to`, if there is one.
    fn find_delegation(&self, to: &ContentId) -> (r: Option<usize>)
        ensures
            match r {
                Some(i) => i < self.delegations@.len() && self.delegations@[i as int].0@ == to@,
                None => forall|i: int|
                    0 <= i < self.delegations@.len() ==> self.delegations@[i].0@ != to@,
            },
    {
        let mut i: usize = 0;
        while i < self.delegations.len()
            invariant
                i <= self.delegations@.len(),
                forall|j: int| 0 <= j < i ==> self.delegations@[j].0@ != to@,
            decreases self.delegations@.len() - i,
        {
            if self.delegations[i].0.same_id(to) {
                return Some(i);
            }
            i += 1;
        }
        None
    }

    /// Whether the permission list holds `p`.
    fn list_has_perm(l: &Vec<String>, p: &String) -> (r: bool)
        ensures
            r == has_perm(l@, p@),
    {
        let mut i: usize = 0;
        while i < l.len()
            invariant
                i <= l@.len(),
                forall|j: int| 0 <= j < i ==> l@[j]@ != p@,
            decreases l@.len() - i,
        {
            if l[i].eq(p) {
                return true;
            }
            i += 1;
        }
        false
    }

    /// Grant `to` the listed permissions over this account: append each
    /// permission not yet granted, in order.  Granting an already-granted
    /// permission changes nothing, so repeating a grant is a no-op.
    pub fn grant(&mut self, to: &ContentId, permissions: &Vec<String>)
        requires
            old(self).wf(),
        ensures
            final(self).wf(),
            final(self)@ == (AccountView {
                delegations: old(self)@.delegations.insert(
                    to@,
                    grant_perms(old(self)@.delegations_list(to@), permissions@),
                ),
                ..old(self)@
            }),
    {
        let ghost old_list = self@.delegations_list(to@);
        let idx: usize;
        match self.find_delegation(to) {
            Some(i) => {
                idx = i;
                proof {
                    lemma_pair_map_index(self.delegations@, idx as int);
                    assert(pair_map(self.delegations@).insert(to@, old_list) =~= pair_map(
                        self.delegations@,
                    ));
                }
            },
            None => {
                idx = self.delegations.len();
                let key = to.clone();
                let fresh: Vec<String> = Vec::new();
                proof {
                    lemma_pair_map_domain(self.delegations@, to@);
                    lemma_keys_distinct_push(self.delegations@, key, fresh);
                    lemma_pair_map_push(self.delegations@, key, fresh);
                    assert(fresh@ =~= old_list);
                }
                self.delegations.push((key, fresh));
            },
        }
        let ghost base = pair_map(old(self).delegations@);
        let mut k: usize = 0;
        while k < permissions.len()
            invariant
                k <= permissions@.len(),
                self.wf(),
                idx < self.delegations@.len(),
                self.delegations@[idx as int].0@ == to@,
                self.balance == old(self).balance,
                self.data@ == old(self).data@,
                self.votes@ == old(self).votes@,
                base == pair_map(old(self).delegations@),
                old_list == old(self)@.delegations_list(to@),
                pair_map(self.delegations@) =~= base.insert(
                    to@,
                    grant_perms(old_list, permissions@.take(k as int)),
                ),
            decreases permissions@.len() - k,
        {
            proof {
                lemma_pair_map_index(self.delegations@, idx as int);
                assert(permissions@.take(k as int).push(permissions@[k as int]) =~= permissions@.take(
                    k as int + 1,
                ));
                lemma_grant_perms_take_step(old_list, permissions@, k as int);
            }
            let ghost cur = self.delegations@[idx as int].1@;
            let p = &permissions[k];
            let present = Self::list_has_perm(&self.delegations[idx].1, p);
            if !present {
                let key = self.delegations[idx].0.clone();
                let mut list = clone_strings(&self.delegations[idx].1);
                list.push(p.clone());
                proof {
                    assert(list@ =~= cur.push(permissions@[k as int]));
                    lemma_keys_distinct_update(self.delegations@, idx as int, key, list);
                    lemma_pair_map_update(self.delegations@, idx as int, key, list);
                }
                self.delegations[idx] = (key, list);
            }
            k += 1;
        }
        proof {
            assert(permissions@.take(permissions@.len() as int) =~= permissions@);
            assert(self@ =~= (AccountView {
                delegations: old(self)@.delegations.insert(
                    to@,
                    grant_perms(old(self)@.delegations_list(to@), permissions@),
                ),
                ..old(self)@
            }));
        }
    }

    /// Remove every permission granted to `to` over this account.  Removing
    /// an absent delegation changes nothing.
    pub fn revoke(&mut self, to: &ContentId)
        requires
            old(self).wf(),
        ensures
            final(self).wf(),
            final(self)@ == (AccountView {
                delegations: old(self)@.delegations.remove(to@),
                ..old(self)@
            }),
    {
        match self.find_delegation(to) {
            Some(i) => {
                proof {
                    lemma_pair_map_remove(self.delegations@, i as int);
                }
                self.delegations.remove(i);
                proof {
                    assert(self@ =~= (AccountView {
                        delegations: old(self)@.delegations.remove(to@),
                        ..old(self)@
                    }));
                }
            },
            None => {
                proof {
                    lemma_pair_map_domain(self.delegations@, to@);
                    assert(old(self)@.delegations.remove(to@) =~= old(self)@.delegations);
                    assert(self@ =~= (AccountView {
                        delegations: old(self)@.delegations.remove(to@),
                        ..old(self)@
                    }));
                }
            },
        }
    }

    /// Upsert `key -> value` into the data map, last write wins.
    pub fn set_data_entry(&mut self, key: String, value: Vec<u8>)
        requires
            old(self).wf(),
        ensures
            final(self).wf(),
            final(self)@ == (AccountView { data: old(self)@.data.insert(key@, value@), ..old(self)@ }),
    {
        let mut i: usize = 0;
        while i < self.data.len()
            invariant
                i <= self.data@.len(),
                *self == *old(self),
                self.wf(),
                forall|j: int| 0 <= j < i ==> self.data@[j].0@ != key@,
            decreases self.data@.len() - i,
        {
            if self.data[i].0.eq(&key) {
                proof {
                    lemma_keys_distinct_update(self.data@, i as int, key, value);
                    lemma_pair_map_update(self.data@, i as int, key, value);
                }
                self.data[i] = (key, value);
                proof {
                    assert(self@ =~= (AccountView {
                        data: old(self)@.data.insert(self.data@[i as int].0@, self.data@[i as int].1@),
                        ..old(self)@
                    }));
                }
                return;
            }
            i += 1;
        }
        proof {
            lemma_pair_map_domain(self.data@, key@);
            lemma_keys_distinct_push(self.data@, key, value);
            lemma_pair_map_push(self.data@, key, value);
        }
        self.data.push((key, value));
        proof {
            assert(self@ =~= (AccountView {
                data: old(self)@.data.insert(self.data@.last().0@, self.data@.last().1@),
                ..old(self)@
            }));
        }
    }

    /// Record a vote: proposal id to support flag, last write wins.
    pub fn set_vote(&mut self, proposal_id: u64, support: bool)
        requires
            old(self).wf(),
        ensures
            final(self).wf(),
            final(self)@ == (AccountView {
                votes: old(self)@.votes.insert(proposal_id, support),
                ..old(self)@
            }),
    {
        let mut i: usize = 0;
        while i < self.votes.len()
            invariant
                i <= self.votes@.len(),
                *self == *old(self),
                self.wf(),
                forall|j: int| 0 <= j < i ==> self.votes@[j].0 != proposal_id,
            decreases self.votes@.len() - i,
        {
            if self.votes[i].0 == proposal_id {
                proof {
                    lemma_keys_distinct_update(self.votes@, i as int, proposal_id, support);
                    lemma_pair_map_update(self.votes@, i as int, proposal_id, support);
                }
                self.votes[i] = (proposal_id, support);
                proof {
                    assert(self@ =~= (AccountView {
                        votes: old(self)@.votes.insert(proposal_id, support),
                        ..old(self)@
                    }));
                }
                return;
            }
            i += 1;
        }
        proof {
            lemma_pair_map_domain(self.votes@, proposal_id);
            lemma_keys_distinct_push(self.votes@, proposal_id, support);
            lemma_pair_map_push(self.votes@, proposal_id, support);
        }
        self.votes.push((proposal_id, support));
        proof {
            assert(self@ =~= (AccountView {
                votes: old(self)@.votes.insert(proposal_id, support),
                ..old(self)@
            }));
        }
    }
}

/// An element-wise copy of a list of strings.
pub fn clone_strings(v: &Vec<String>) -> (r: Vec<String>)
    ensures
        r@ == v@,
{
    let mut r: Vec<String> = Vec::new();
    let mut i: usize = 0;
    while i < v.len()
        invariant
            i <= v@.len(),
            r@ == v@.take(i as int),
        decreases v@.len() - i,
    {
        r.push(v[i].clone());
        proof {
            assert(v@.take(i as int).push(v@[i as int]) =~= v@.take(i as int + 1));
        }
        i += 1;
    }
    proof {
        assert(v@.take(v@.len() as int) =~= v@);
    }
    r
}

/// A permission is in the granted list exactly when it was already present
/// or is among those being granted.
pub proof fn lemma_has_perm_grant(l: Seq<String>, ps: Seq<String>, p: Seq<char>)
    ensures
        has_perm(grant_perms(l, ps), p) <==> (has_perm(l, p) || exists|i: int|
            0 <= i < ps.len() && ps[i]@ == p),
    decreases ps.len(),
{
    if ps.len() > 0 {
        let l1 = if has_perm(l, ps[0]@) {
            l
        } else {
            l.push(ps[0])
        };
        lemma_has_perm_grant(l1, ps.drop_first(), p);
        assert(has_perm(l1, p) <==> (has_perm(l, p) || ps[0]@ == p)) by {
            if has_perm(l, p) {
                let i = choose|i: int| 0 <= i < l.len() && l[i]@ == p;
                assert(l1[i]@ == p);
            }
            if ps[0]@ == p && !has_perm(l, p) {
                assert(l1[l.len() as int]@ == p);
            }
            if has_perm(l1, p) && !has_perm(l, ps[0]@) {
                let i = choose|i: int| 0 <= i < l1.len() && l1[i]@ == p;
                if i < l.len() {
                    assert(l[i]@ == p);
                }
            }
        }
        assert((exists|i: int| 0 <= i < ps.len() && ps[i]@ == p) <==> (ps[0]@ == p || exists|i: int|
            0 <= i < ps.drop_first().len() && ps.drop_first()[i]@ == p)) by {
            if exists|i: int| 0 <= i < ps.len() && ps[i]@ == p {
                let i = choose|i: int| 0 <= i < ps.len() && ps[i]@ == p;
                if i > 0 {
                    assert(ps.drop_first()[i - 1]@ == p);
                }
            }
            if exists|i: int| 0 <= i < ps.drop_first().len() && ps.drop_first()[i]@ == p {
                let i = choose|i: int| 0 <= i < ps.drop_first().len() && ps.drop_first()[i]@ == p;
                assert(ps[i + 1]@ == p);
            }
        }
    }
}

/// Granting is union: the granted list denotes exactly the old permission
/// set joined with the set of the listed permissions.
pub proof fn lemma_grant_perms_is_union(l: Seq<String>, ps: Seq<String>)
    ensures
        perm_set(grant_perms(l, ps)) == perm_set(l).union(
            Set::new(|p: Seq<char>| exists|i: int| 0 <= i < ps.len() && ps[i]@ == p),
        ),
{
    assert forall|p: Seq<char>| #[trigger] perm_set(grant_perms(l, ps)).contains(p)
        <==> perm_set(l).union(
        Set::new(|q: Seq<char>| exists|i: int| 0 <= i < ps.len() && ps[i]@ == q),
    ).contains(p) by {
        lemma_has_perm_grant(l, ps, p);
    }
    assert(perm_set(grant_perms(l, ps)) =~= perm_set(l).union(
        Set::new(|p: Seq<char>| exists|i: int| 0 <= i < ps.len() && ps[i]@ == p),
    ));
}

/// Granting permissions that are all already present changes nothing.
pub proof fn lemma_grant_perms_noop(l: Seq<String>, ps: Seq<String>)
    requires
        forall|i: int| 0 <= i < ps.len() ==> has_perm(l, #[trigger] ps[i]@),
    ensures
        grant_perms(l, ps) == l,
    decreases ps.len(),
{
    if ps.len() > 0 {
        assert(has_perm(l, ps[0]@));
        assert(forall|i: int|
            0 <= i < ps.drop_first().len() ==> has_perm(l, #[trigger] ps.drop_first()[i]@)) by {
            assert(forall|i: int|
                0 <= i < ps.drop_first().len() ==> ps.drop_first()[i] == ps[i + 1]);
        }
        lemma_grant_perms_noop(l, ps.drop_first());
    }
}

/// Granting one more permission extends the grant of a prefix of the list.
pub proof fn lemma_grant_perms_take_step(l: Seq<String>, ps: Seq<String>, k: int)
    requires
        0 <= k < ps.len(),
    ensures
        grant_perms(l, ps.take(k + 1)) == (if has_perm(grant_perms(l, ps.take(k)), ps[k]@) {
            grant_perms(l, ps.take(k))
        } else {
            grant_perms(l, ps.take(k)).push(ps[k])
        }),
{
    lemma_grant_perms_snoc(l, ps.take(k + 1));
    assert(ps.take(k + 1).drop_last() =~= ps.take(k));
    assert(ps.take(k + 1).last() == ps[k]);
}

/// Unrolling `grant_perms` from the back of the permission list.
pub proof fn lemma_grant_perms_snoc(l: Seq<String>, ps: Seq<String>)
    requires
        ps.len() > 0,
    ensures
        grant_perms(l, ps) == (if has_perm(grant_perms(l, ps.drop_last()), ps.last()@) {
            grant_perms(l, ps.drop_last())
        } else {
            grant_perms(l, ps.drop_last()).push(ps.last())
        }),
    decreases ps.len(),
{
    let l1 = if has_perm(l, ps[0]@) {
        l
    } else {
        l.push(ps[0])
    };
    assert(grant_perms(l, ps) == grant_perms(l1, ps.drop_first()));
    if ps.len() == 1 {
        assert(ps.drop_last() =~= Seq::<String>::empty());
        assert(ps.drop_first() =~= Seq::<String>::empty());
        assert(grant_perms(l, ps.drop_last()) == l);
        assert(grant_perms(l1, ps.drop_first()) == l1);
    } else {
        lemma_grant_perms_snoc(l1, ps.drop_first());
        assert(ps.drop_first().drop_last() =~= ps.drop_last().drop_first());
        assert(ps.drop_first().last() == ps.last());
        assert(ps.drop_last()[0] == ps[0]);
        assert(ps.drop_last().len() > 0);
        assert(grant_perms(l, ps.drop_last()) == grant_perms(l1, ps.drop_last().drop_first()));
    }
}

} // verus!
