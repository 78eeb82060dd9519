use risc0_zkvm::{Digest, FakeReceipt, InnerReceipt, Receipt, ReceiptClaim};
use zero_wallet::proof_map::ProofMap;
use zero_wallet::zero_proof::ZeroProof;
use zero_wallet::zero_wallet::ZeroWallet;

fn receipt(journal: &[u8]) -> Receipt {
    let claim = ReceiptClaim::ok(Digest::ZERO, journal.to_vec());
    Receipt::new(InnerReceipt::Fake(FakeReceipt::new(claim)), journal.to_vec())
}

fn stamped(timestamp: u64, journal: &[u8]) -> ZeroProof {
    ZeroProof { timestamp, proof: receipt(journal) }
}

fn journal_of(p: &ZeroProof) -> Vec<u8> {
    p.proof.journal.bytes.clone()
}

#[test]
fn key_is_the_decimal_timestamp() {
    assert_eq!(stamped(0, b"").key(), "0");
    assert_eq!(stamped(7, b"").key(), "7");
    assert_eq!(stamped(10, b"").key(), "10");
    assert_eq!(stamped(100, b"").key(), "100");
    assert_eq!(stamped(1700000000, b"").key(), "1700000000");
    assert_eq!(stamped(u64::MAX, b"").key(), "18446744073709551615");
}

#[test]
fn proof_is_valid_iff_timestamp_is_positive() {
    assert!(!stamped(0, b"x").is_valid());
    assert!(stamped(1, b"x").is_valid());
    assert!(stamped(u64::MAX, b"x").is_valid());
}

#[test]
fn added_proof_is_found_under_its_decimal_key() {
    let mut wallet = ZeroWallet::new();
    wallet.add_proof(stamped(100, b"first"));
    wallet.add_proof(stamped(42, b"other"));
    assert_eq!(journal_of(wallet.get_proof("100").unwrap()), b"first");
    assert_eq!(journal_of(wallet.get_proof("42").unwrap()), b"other");
    assert!(wallet.get_proof("0100").is_none());
    assert!(wallet.get_proof("10").is_none());
    assert!(wallet.get_proof("").is_none());
}

#[test]
fn same_timestamp_keeps_only_the_second_proof() {
    let mut wallet = ZeroWallet::new();
    wallet.add_proof(stamped(100, b"first"));
    wallet.add_proof(stamped(100, b"second"));
    let all = wallet.list_proofs();
    assert_eq!(all.len(), 1);
    assert_eq!(all[0].timestamp, 100);
    assert_eq!(journal_of(all[0]), b"second");
    assert_eq!(journal_of(wallet.get_proof("100").unwrap()), b"second");
    assert_eq!(wallet.get_proofs().len(), 1);
}

#[test]
fn different_timestamps_do_not_collide() {
    let mut wallet = ZeroWallet::new();
    wallet.add_proof(stamped(1, b"a"));
    wallet.add_proof(stamped(10, b"b"));
    wallet.add_proof(stamped(100, b"c"));
    assert_eq!(wallet.list_proofs().len(), 3);
    assert_eq!(journal_of(wallet.get_proof("1").unwrap()), b"a");
    assert_eq!(journal_of(wallet.get_proof("10").unwrap()), b"b");
    assert_eq!(journal_of(wallet.get_proof("100").unwrap()), b"c");
}

#[test]
fn remove_proof_by_key() {
    let mut wallet = ZeroWallet::new();
    wallet.add_proof(stamped(1, b"a"));
    wallet.add_proof(stamped(2, b"b"));
    wallet.add_proof(stamped(3, b"c"));
    wallet.remove_proof("2");
    assert!(wallet.get_proof("2").is_none());
    assert_eq!(journal_of(wallet.get_proof("1").unwrap()), b"a");
    assert_eq!(journal_of(wallet.get_proof("3").unwrap()), b"c");
    assert_eq!(wallet.list_proofs().len(), 2);
}

#[test]
fn remove_of_an_absent_key_changes_nothing() {
    let mut wallet = ZeroWallet::new();
    wallet.remove_proof("1");
    assert!(wallet.is_empty());
    wallet.add_proof(stamped(1, b"a"));
    wallet.remove_proof("2");
    wallet.remove_proof("");
    assert_eq!(wallet.list_proofs().len(), 1);
    assert_eq!(journal_of(wallet.get_proof("1").unwrap()), b"a");
}

#[test]
fn batch_is_upserted_entry_by_entry() {
    let mut wallet = ZeroWallet::new();
    wallet.add_proof(stamped(1, b"old one"));
    wallet.add_proof(stamped(2, b"old two"));
    let mut batch = ProofMap::new();
    batch.insert("2".to_string(), stamped(2, b"new two"));
    batch.insert("label".to_string(), stamped(9, b"labelled"));
    wallet.add_proofs(batch);
    assert_eq!(wallet.list_proofs().len(), 3);
    assert_eq!(journal_of(wallet.get_proof("1").unwrap()), b"old one");
    assert_eq!(journal_of(wallet.get_proof("2").unwrap()), b"new two");
    assert_eq!(journal_of(wallet.get_proof("label").unwrap()), b"labelled");
    assert!(wallet.get_proof("9").is_none());
}

#[test]
fn empty_batch_changes_nothing() {
    let mut wallet = ZeroWallet::new();
    wallet.add_proof(stamped(1, b"a"));
    wallet.add_proofs(ProofMap::new());
    assert_eq!(wallet.list_proofs().len(), 1);
}

#[test]
fn listing_yields_every_proof_once() {
    let mut wallet = ZeroWallet::new();
    for t in 1..=20u64 {
        wallet.add_proof(stamped(t, &t.to_le_bytes()));
    }
    let mut seen: Vec<u64> = wallet.list_proofs().iter().map(|p| p.timestamp).collect();
    seen.sort();
    assert_eq!(seen, (1..=20u64).collect::<Vec<u64>>());
}

#[test]
fn proofs_may_outnumber_the_asset_slots() {
    let mut wallet = ZeroWallet::new();
    for t in 0..25u64 {
        wallet.add_proof(stamped(t, b""));
    }
    assert_eq!(wallet.list_proofs().len(), 25);
    assert!(!wallet.is_full());
}

#[test]
fn set_and_clear_proofs() {
    let mut wallet = ZeroWallet::new();
    wallet.add_proof(stamped(1, b"a"));
    let mut other = ProofMap::new();
    other.insert("x".to_string(), stamped(5, b"x"));
    other.insert("y".to_string(), stamped(6, b"y"));
    wallet.set_proofs(other);
    assert!(wallet.get_proof("1").is_none());
    assert_eq!(wallet.get_proofs().len(), 2);
    assert_eq!(journal_of(wallet.get_proofs().get("y").unwrap()), b"y");
    wallet.clear_proofs();
    assert!(wallet.get_proofs().is_empty());
    assert!(wallet.list_proofs().is_empty());
}

#[test]
fn wallet_with_a_proof_is_not_empty() {
    let mut wallet = ZeroWallet::new();
    wallet.add_proof(stamped(1, b"a"));
    assert!(!wallet.is_empty());
    wallet.remove_proof("1");
    assert!(wallet.is_empty());
}

#[test]
fn map_insert_get_remove() {
    let mut map = ProofMap::new();
    assert!(map.is_empty());
    assert_eq!(map.len(), 0);
    map.insert("a".to_string(), stamped(1, b"one"));
    map.insert("b".to_string(), stamped(2, b"two"));
    map.insert("a".to_string(), stamped(3, b"three"));
    assert_eq!(map.len(), 2);
    assert!(!map.is_empty());
    assert_eq!(map.get("a").unwrap().timestamp, 3);
    assert_eq!(map.get("b").unwrap().timestamp, 2);
    assert!(map.get("c").is_none());
    let taken = map.remove("a").unwrap();
    assert_eq!(taken.timestamp, 3);
    assert_eq!(journal_of(&taken), b"three");
    assert!(map.remove("a").is_none());
    assert_eq!(map.len(), 1);
    map.clear();
    assert!(map.is_empty());
}

#[test]
fn map_keys_values_and_entries_agree() {
    let mut map = ProofMap::new();
    map.insert("k1".to_string(), stamped(1, b""));
    map.insert("k2".to_string(), stamped(2, b""));
    map.insert("k3".to_string(), stamped(3, b""));
    map.remove("k2");
    let keys: Vec<String> = map.keys().iter().map(|k| k.to_string()).collect();
    let stamps: Vec<u64> = map.values().iter().map(|p| p.timestamp).collect();
    assert_eq!(keys.len(), 2);
    assert_eq!(stamps.len(), 2);
    for (k, t) in keys.iter().zip(stamps.iter()) {
        assert_eq!(map.get(k).unwrap().timestamp, *t);
    }
    let entries = map.into_entries();
    let got: Vec<(String, u64)> = entries.iter().map(|(k, p)| (k.clone(), p.timestamp)).collect();
    let want: Vec<(String, u64)> = keys.into_iter().zip(stamps.into_iter()).collect();
    assert_eq!(got, want);
    let mut sorted = got.clone();
    sorted.sort();
    assert_eq!(sorted, vec![("k1".to_string(), 1), ("k3".to_string(), 3)]);
}

#[test]
fn map_extend_prefers_the_newcomer() {
    let mut left = ProofMap::new();
    left.insert("a".to_string(), stamped(1, b""));
    left.insert("b".to_string(), stamped(2, b""));
    let mut right = ProofMap::new();
    right.insert("b".to_string(), stamped(20, b""));
    right.insert("c".to_string(), stamped(30, b""));
    left.extend(right);
    assert_eq!(left.len(), 3);
    assert_eq!(left.get("a").unwrap().timestamp, 1);
    assert_eq!(left.get("b").unwrap().timestamp, 20);
    assert_eq!(left.get("c").unwrap().timestamp, 30);
}
