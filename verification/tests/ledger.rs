use filecoin_ledger::actor_state::ActorState;
use filecoin_ledger::content_id::ContentId;
use filecoin_ledger::messages::{Event, Message, Outcome, Reason};

fn id(tag: u8) -> ContentId {
    ContentId { codec: 0x71, hash_alg: 0x12, digest: vec![tag; 32] }
}

fn applied_empty(r: &Outcome) -> bool {
    match r {
        Outcome::Applied { events } => events.is_empty(),
        _ => false,
    }
}

fn balance_of(state: &mut ActorState, who: &ContentId) -> u64 {
    match state.handle_message(who, &Message::QueryBalance { account: who.clone() }) {
        Outcome::Applied { events } => match &events[0] {
            Event::Balance { amount, .. } => *amount,
            _ => panic!("expected a balance event"),
        },
        _ => panic!("query must not fail"),
    }
}

#[test]
fn mint_increases_balance_and_total() {
    let mut state = ActorState::new();
    let a = id(1);
    let r = state.handle_message(&a, &Message::Mint { to: a.clone(), amount: 100 });
    assert!(applied_empty(&r));
    assert_eq!(state.balance, 100);
    assert_eq!(balance_of(&mut state, &a), 100);
}

#[test]
fn burn_decreases_balance_and_total() {
    let mut state = ActorState::new();
    let a = id(1);
    state.handle_message(&a, &Message::Mint { to: a.clone(), amount: 100 });
    let r = state.handle_message(&a, &Message::Burn { from: a.clone(), amount: 40 });
    assert!(applied_empty(&r));
    assert_eq!(state.balance, 60);
    assert_eq!(balance_of(&mut state, &a), 60);
}

#[test]
fn burn_insufficient_funds_changes_nothing() {
    let mut state = ActorState::new();
    let a = id(1);
    state.handle_message(&a, &Message::Mint { to: a.clone(), amount: 10 });
    let r = state.handle_message(&a, &Message::Burn { from: a.clone(), amount: 11 });
    assert!(matches!(
        r,
        Outcome::Rejected { reason: Reason::InsufficientFunds { at_index: 0 } }
    ));
    assert_eq!(state.balance, 10);
    assert_eq!(balance_of(&mut state, &a), 10);
}

#[test]
fn mint_overflow_is_rejected() {
    let mut state = ActorState::new();
    let a = id(1);
    state.handle_message(&a, &Message::Mint { to: a.clone(), amount: u64::MAX });
    assert_eq!(state.balance, u64::MAX);
    let r = state.handle_message(&a, &Message::Mint { to: a.clone(), amount: 1 });
    assert!(matches!(r, Outcome::Rejected { reason: Reason::Overflow }));
    assert_eq!(state.balance, u64::MAX);
}

#[test]
fn transfer_moves_funds_and_conserves_total() {
    let mut state = ActorState::new();
    let a = id(1);
    let b = id(2);
    state.handle_message(&a, &Message::Mint { to: a.clone(), amount: 100 });
    let r = state.handle_message(&a, &Message::Transfer { to: b.clone(), amount: 30 });
    assert!(applied_empty(&r));
    assert_eq!(state.balance, 100);
    assert_eq!(balance_of(&mut state, &a), 70);
    assert_eq!(balance_of(&mut state, &b), 30);
}

#[test]
fn transfer_insufficient_funds_changes_nothing() {
    let mut state = ActorState::new();
    let a = id(1);
    let b = id(2);
    state.handle_message(&a, &Message::Mint { to: a.clone(), amount: 10 });
    let r = state.handle_message(&a, &Message::Transfer { to: b.clone(), amount: 11 });
    assert!(matches!(
        r,
        Outcome::Rejected { reason: Reason::InsufficientFunds { at_index: 0 } }
    ));
    assert_eq!(balance_of(&mut state, &a), 10);
    assert_eq!(balance_of(&mut state, &b), 0);
}

#[test]
fn self_transfer_keeps_balance() {
    let mut state = ActorState::new();
    let a = id(1);
    state.handle_message(&a, &Message::Mint { to: a.clone(), amount: 25 });
    let r = state.handle_message(&a, &Message::Transfer { to: a.clone(), amount: 25 });
    assert!(applied_empty(&r));
    assert_eq!(balance_of(&mut state, &a), 25);
    assert_eq!(state.balance, 25);
}

#[test]
fn batch_all_or_nothing_rejects_at_failing_index() {
    let mut state = ActorState::new();
    let a = id(1);
    let b = id(2);
    let c = id(3);
    state.handle_message(&a, &Message::Mint { to: a.clone(), amount: 100 });
    let r = state.handle_message(
        &a,
        &Message::BatchTransfer { transfers: vec![(b.clone(), 60), (c.clone(), 60)] },
    );
    assert!(matches!(
        r,
        Outcome::Rejected { reason: Reason::InsufficientFunds { at_index: 1 } }
    ));
    assert_eq!(balance_of(&mut state, &a), 100);
    assert_eq!(balance_of(&mut state, &b), 0);
    assert_eq!(balance_of(&mut state, &c), 0);
}

#[test]
fn batch_fully_funded_applies_all_steps() {
    let mut state = ActorState::new();
    let a = id(1);
    let b = id(2);
    let c = id(3);
    state.handle_message(&a, &Message::Mint { to: a.clone(), amount: 100 });
    let r = state.handle_message(
        &a,
        &Message::BatchTransfer { transfers: vec![(b.clone(), 60), (c.clone(), 40)] },
    );
    assert!(applied_empty(&r));
    assert_eq!(balance_of(&mut state, &a), 0);
    assert_eq!(balance_of(&mut state, &b), 60);
    assert_eq!(balance_of(&mut state, &c), 40);
    assert_eq!(state.balance, 100);
}

#[test]
fn conservation_across_message_sequence() {
    let mut state = ActorState::new();
    let a = id(1);
    let b = id(2);
    state.handle_message(&a, &Message::Mint { to: a.clone(), amount: 500 });
    assert_eq!(state.balance, 500);
    let msgs = vec![
        Message::Transfer { to: b.clone(), amount: 120 },
        Message::Delegate {
            from: a.clone(),
            to: b.clone(),
            permissions: vec!["read".to_string()],
        },
        Message::Revoke { from: a.clone(), to: b.clone() },
        Message::Vote { proposal_id: 7, voter: b.clone(), support: true },
        Message::SetData { key: "k".to_string(), value: vec![1, 2] },
        Message::Custom { data: vec![9, 9] },
        Message::QueryBalance { account: b.clone() },
        Message::BatchTransfer { transfers: vec![(b.clone(), 10), (a.clone(), 5)] },
    ];
    for m in &msgs {
        state.handle_message(&a, m);
        assert_eq!(state.balance, 500);
    }
}

#[test]
fn withdraw_reduces_total_balance() {
    let mut state = ActorState::new();
    let a = id(1);
    state.handle_message(&a, &Message::Mint { to: a.clone(), amount: 50 });
    let r = state.handle_message(&a, &Message::Withdraw { from: a.clone(), amount: 20 });
    assert!(applied_empty(&r));
    assert_eq!(state.balance, 30);
    assert_eq!(balance_of(&mut state, &a), 30);
}

#[test]
fn withdraw_insufficient_funds_is_rejected() {
    let mut state = ActorState::new();
    let a = id(1);
    let r = state.handle_message(&a, &Message::Withdraw { from: a.clone(), amount: 1 });
    assert!(matches!(
        r,
        Outcome::Rejected { reason: Reason::InsufficientFunds { at_index: 0 } }
    ));
    assert_eq!(state.balance, 0);
}

fn delegation_lists(state: &ActorState, owner: &ContentId) -> Vec<Vec<String>> {
    let mut out = Vec::new();
    for (key, acct) in &state.accounts {
        if key.digest == owner.digest && key.codec == owner.codec && key.hash_alg == owner.hash_alg
        {
            for (_, perms) in &acct.delegations {
                out.push(perms.clone());
            }
        }
    }
    out
}

#[test]
fn delegation_is_idempotent() {
    let mut state = ActorState::new();
    let a = id(1);
    let b = id(2);
    let msg = Message::Delegate {
        from: a.clone(),
        to: b.clone(),
        permissions: vec!["read".to_string(), "write".to_string(), "read".to_string()],
    };
    let r1 = state.handle_message(&a, &msg);
    assert!(applied_empty(&r1));
    let once = delegation_lists(&state, &a);
    let r2 = state.handle_message(&a, &msg);
    assert!(applied_empty(&r2));
    let twice = delegation_lists(&state, &a);
    assert_eq!(once, twice);
    assert_eq!(once, vec![vec!["read".to_string(), "write".to_string()]]);
}

#[test]
fn revoke_without_delegation_is_applied_noop() {
    let mut state = ActorState::new();
    let a = id(1);
    let b = id(2);
    state.handle_message(&a, &Message::QueryBalance { account: a.clone() });
    let r = state.handle_message(&a, &Message::Revoke { from: a.clone(), to: b.clone() });
    assert!(applied_empty(&r));
    assert_eq!(delegation_lists(&state, &a), Vec::<Vec<String>>::new());
}

#[test]
fn revoke_removes_granted_permissions() {
    let mut state = ActorState::new();
    let a = id(1);
    let b = id(2);
    state.handle_message(
        &a,
        &Message::Delegate { from: a.clone(), to: b.clone(), permissions: vec!["x".to_string()] },
    );
    assert_eq!(delegation_lists(&state, &a).len(), 1);
    let r = state.handle_message(&a, &Message::Revoke { from: a.clone(), to: b.clone() });
    assert!(applied_empty(&r));
    assert_eq!(delegation_lists(&state, &a), Vec::<Vec<String>>::new());
}

#[test]
fn query_balance_on_unseen_account_reads_zero() {
    let mut state = ActorState::new();
    let x = id(9);
    let r = state.handle_message(&x, &Message::QueryBalance { account: x.clone() });
    match r {
        Outcome::Applied { events } => {
            assert_eq!(events.len(), 1);
            match &events[0] {
                Event::Balance { account, amount } => {
                    assert_eq!(*amount, 0);
                    assert_eq!(account.digest, x.digest);
                }
                _ => panic!("expected a balance event"),
            }
        }
        _ => panic!("query on an unseen account must not fail"),
    }
}

#[test]
fn custom_message_echoes_bytes() {
    let mut state = ActorState::new();
    let a = id(1);
    let r = state.handle_message(&a, &Message::Custom { data: vec![4, 5, 6] });
    match r {
        Outcome::Applied { events } => {
            assert_eq!(events.len(), 1);
            match &events[0] {
                Event::Custom { data } => assert_eq!(data, &vec![4, 5, 6]),
                _ => panic!("expected a custom event"),
            }
        }
        _ => panic!("custom messages are always applied"),
    }
}

#[test]
fn set_data_upserts_last_write_wins() {
    let mut state = ActorState::new();
    let a = id(1);
    state.handle_message(&a, &Message::SetData { key: "k".to_string(), value: vec![1] });
    state.handle_message(&a, &Message::SetData { key: "k".to_string(), value: vec![2, 3] });
    let mut found = Vec::new();
    for (_, acct) in &state.accounts {
        for (key, value) in &acct.data {
            found.push((key.clone(), value.clone()));
        }
    }
    assert_eq!(found, vec![("k".to_string(), vec![2u8, 3u8])]);
}

#[test]
fn vote_records_last_write() {
    let mut state = ActorState::new();
    let a = id(1);
    state.handle_message(&a, &Message::Vote { proposal_id: 3, voter: a.clone(), support: true });
    state.handle_message(&a, &Message::Vote { proposal_id: 3, voter: a.clone(), support: false });
    let mut votes = Vec::new();
    for (_, acct) in &state.accounts {
        for v in &acct.votes {
            votes.push(*v);
        }
    }
    assert_eq!(votes, vec![(3u64, false)]);
}
