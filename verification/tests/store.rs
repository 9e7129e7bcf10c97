use filecoin_ledger::blockstore::BlockStore;
use filecoin_ledger::content_id::ContentId;
use filecoin_ledger::messages::{Message, Outcome};
use filecoin_ledger::{MachineError, MyMachine, NoopLimiter};
use multihash_codetable::{Code, MultihashDigest};

#[test]
fn limiter_admits_up_to_the_limit() {
    let limiter = NoopLimiter::new(4);
    assert!(limiter.check_limit(0));
    assert!(limiter.check_limit(4));
    assert!(!limiter.check_limit(5));
}

#[test]
fn store_is_deterministic_for_identical_bytes() {
    let mut machine = MyMachine::new(BlockStore::new(), 1024);
    let a = machine.store_data(vec![1, 2, 3]).unwrap();
    let b = machine.store_data(vec![1, 2, 3]).unwrap();
    assert_eq!(a, b);
    let c = machine.store_data(vec![1, 2, 4]).unwrap();
    assert_ne!(a, c);
}

#[test]
fn stored_identifier_matches_the_content_hash() {
    let mut machine = MyMachine::new(BlockStore::new(), 1024);
    let data = vec![7u8, 8, 9];
    let expected = cid::Cid::new_v1(0x71, Code::Sha2_256.digest(&data)).to_string();
    let got = machine.store_data(data).unwrap();
    assert_eq!(got, expected);
}

#[test]
fn retrieve_returns_exactly_the_stored_bytes() {
    let mut machine = MyMachine::new(BlockStore::new(), 1024);
    let data = vec![10u8, 20, 30, 40];
    let cid_text = machine.store_data(data.clone()).unwrap();
    let back = machine.retrieve_data(cid_text).unwrap();
    assert_eq!(back, data);
}

#[test]
fn retrieve_empty_payload_round_trips() {
    let mut machine = MyMachine::new(BlockStore::new(), 8);
    let cid_text = machine.store_data(Vec::new()).unwrap();
    assert_eq!(machine.retrieve_data(cid_text).unwrap(), Vec::<u8>::new());
}

#[test]
fn admission_boundary_is_exact() {
    let mut machine = MyMachine::new(BlockStore::new(), 3);
    assert!(machine.store_data(vec![1, 2, 3]).is_ok());
    let r = machine.store_data(vec![1, 2, 3, 4]);
    assert!(matches!(r, Err(MachineError::CapacityExceeded)));
}

#[test]
fn oversized_payload_is_never_stored() {
    let mut machine = MyMachine::new(BlockStore::new(), 2);
    let data = vec![5u8, 6, 7];
    let text = cid::Cid::new_v1(0x71, Code::Sha2_256.digest(&data)).to_string();
    assert!(machine.store_data(data).is_err());
    assert!(matches!(machine.retrieve_data(text), Err(MachineError::NotFound)));
}

#[test]
fn retrieve_unknown_identifier_is_not_found() {
    let machine = MyMachine::new(BlockStore::new(), 1024);
    let text = cid::Cid::new_v1(0x71, Code::Sha2_256.digest(b"never stored")).to_string();
    assert!(matches!(machine.retrieve_data(text), Err(MachineError::NotFound)));
}

#[test]
fn retrieve_malformed_identifier_is_rejected() {
    let machine = MyMachine::new(BlockStore::new(), 1024);
    let r = machine.retrieve_data("this is no identifier".to_string());
    assert!(matches!(r, Err(MachineError::MalformedId)));
}

#[test]
fn store_and_register_reports_fresh_accounts() {
    let mut machine = MyMachine::new(BlockStore::new(), 1024);
    let (id1, created1) = machine.store_and_register(vec![1, 1]).unwrap();
    assert!(created1);
    let (id2, created2) = machine.store_and_register(vec![1, 1]).unwrap();
    assert!(!created2);
    assert_eq!(id1.digest, id2.digest);
    assert_eq!(id1.codec, 0x71);
    assert_eq!(id1.hash_alg, 0x12);
    assert_eq!(id1.digest.len(), 32);
}

#[test]
fn identifier_text_parses_back_to_the_same_components() {
    let mut machine = MyMachine::new(BlockStore::new(), 1024);
    let (id, _) = machine.store_and_register(vec![42]).unwrap();
    let text = machine.store_data(vec![42]).unwrap();
    let parsed: cid::Cid = text.parse().unwrap();
    assert_eq!(parsed.codec(), id.codec);
    assert_eq!(parsed.hash().code(), id.hash_alg);
    assert_eq!(parsed.hash().digest(), id.digest.as_slice());
}

#[test]
fn machine_applies_messages_against_its_ledger() {
    let mut machine = MyMachine::new(BlockStore::new(), 1024);
    let (actor, _) = machine.store_and_register(vec![1]).unwrap();
    let to = ContentId { codec: 0x71, hash_alg: 0x12, digest: vec![9; 32] };
    let minted = machine.apply(&actor, &Message::Mint { to: actor.clone(), amount: 5 });
    assert!(matches!(minted, Outcome::Applied { .. }));
    let moved = machine.apply(&actor, &Message::Transfer { to, amount: 5 });
    assert!(matches!(moved, Outcome::Applied { .. }));
}
