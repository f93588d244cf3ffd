//! Behavior of the proof-of-work ledger.

use axiom_islam::ledger::Ledger;
use axiom_islam::transaction::Transaction;

#[test]
fn new_ledger_has_valid_mined_genesis() {
    let ledger = Ledger::new();
    assert_eq!(ledger.chain.len(), 1);
    assert_eq!(ledger.difficulty, "0000");
    assert!(ledger.chain[0].hash.starts_with("0000"));
    assert!(ledger.chain[0].validate());
    assert!(ledger.is_chain_valid());
}

#[test]
fn mining_pending_transactions_extends_a_valid_chain() {
    let mut ledger = Ledger::new();
    ledger.add_transaction(Transaction::new(
        "first entry".to_string(),
        "System".to_string(),
    ));
    ledger.add_transaction(Transaction::new(
        "second entry".to_string(),
        "System".to_string(),
    ));
    assert_eq!(ledger.pending_transactions.len(), 2);
    ledger.mine_pending_transactions();
    assert_eq!(ledger.pending_transactions.len(), 0);
    assert_eq!(ledger.chain.len(), 2);
    assert_eq!(ledger.chain[1].transactions.len(), 2);
    assert_eq!(ledger.chain[1].previous_hash, ledger.chain[0].hash);
    assert!(ledger.chain[1].hash.starts_with("0000"));
    assert!(ledger.is_chain_valid());
}

#[test]
fn mining_with_nothing_pending_changes_nothing() {
    let mut ledger = Ledger::new();
    ledger.mine_pending_transactions();
    assert_eq!(ledger.chain.len(), 1);
}

#[test]
fn tampering_with_a_block_invalidates_the_chain() {
    let mut ledger = Ledger::new();
    ledger.add_transaction(Transaction::new("entry".to_string(), "System".to_string()));
    ledger.mine_pending_transactions();
    assert!(ledger.is_chain_valid());
    ledger.chain[1].nonce = ledger.chain[1].nonce.wrapping_add(1);
    assert!(!ledger.chain[1].validate());
    assert!(!ledger.is_chain_valid());
}

#[test]
fn transaction_hash_round_trip_and_tamper_detection() {
    let tx = Transaction::new("hello ledger".to_string(), "Sender".to_string());
    assert_eq!(tx.id.len(), 36);
    assert_eq!(tx.hash.len(), 64);
    assert!(tx.verify_hash());
    let mut tampered = tx.clone();
    tampered.content = "hello ledger!".to_string();
    assert!(!tampered.verify_hash());
    let line = tx.to_display_string();
    assert!(line.starts_with("Transaction { id: "));
    assert!(line.ends_with("content_length: 12 }"));
    // The timestamp appears in its RFC 3339 form, not as raw milliseconds.
    assert!(line.contains(", timestamp: 20"));
    assert!(line.contains("+00:00"));
}
