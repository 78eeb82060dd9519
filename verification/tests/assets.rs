use zero_wallet::nft::{ContentType, Nft};
use zero_wallet::zero_id::ZeroId;
use zero_wallet::zero_wallet::{ZeroWallet, MAX_NFTS};

fn owner(seed: u8) -> ZeroId {
    let mut id = ZeroId::new();
    id.did_peer[0] = seed;
    id.pubkey[0] = seed;
    id.signature[0] = seed;
    id
}

fn asset(seed: u8, tag: u8) -> Nft {
    let mut content_hash = [0u8; 1024];
    content_hash[0] = tag;
    Nft {
        zero_id: owner(seed),
        content_hash,
        signature: [tag; 64],
        content_type: ContentType::DrippImage,
    }
}

fn tag_of(slot: &Option<Nft>) -> Option<u8> {
    slot.as_ref().map(|nft| nft.content_hash[0])
}

#[test]
fn capacity_is_ten() {
    assert_eq!(MAX_NFTS, 10);
    let wallet = ZeroWallet::new();
    assert_eq!(wallet.get_nfts().len(), 10);
}

#[test]
fn fresh_wallet_has_only_empty_slots() {
    let wallet = ZeroWallet::new();
    assert!(wallet.nfts.iter().all(|slot| slot.is_none()));
    assert!(wallet.is_empty());
    assert!(!wallet.is_full());
    assert!(wallet.list_nfts().is_empty());
}

#[test]
fn assets_go_into_the_first_empty_slot() {
    let mut wallet = ZeroWallet::new();
    wallet.add_nft(asset(1, 10));
    wallet.add_nft(asset(2, 20));
    assert_eq!(tag_of(&wallet.nfts[0]), Some(10));
    assert_eq!(tag_of(&wallet.nfts[1]), Some(20));
    for slot in &wallet.nfts[2..] {
        assert!(slot.is_none());
    }
}

#[test]
fn eleventh_asset_leaves_a_full_wallet_unchanged() {
    let mut wallet = ZeroWallet::new();
    for i in 0..10u8 {
        assert!(!wallet.is_full());
        wallet.add_nft(asset(i + 1, i + 100));
        assert_eq!(wallet.list_nfts().len(), (i + 1) as usize);
    }
    assert!(wallet.is_full());
    wallet.add_nft(asset(11, 111));
    assert!(wallet.is_full());
    assert_eq!(wallet.list_nfts().len(), 10);
    for i in 0..10u8 {
        assert_eq!(tag_of(&wallet.nfts[i as usize]), Some(i + 100));
        assert!(wallet.nfts[i as usize].as_ref().unwrap().zero_id == owner(i + 1));
    }
    assert!(wallet.get_nft(&owner(11)).is_none());
}

#[test]
fn freed_slot_is_the_next_one_filled() {
    let mut wallet = ZeroWallet::new();
    wallet.add_nft(asset(1, b'A'));
    wallet.add_nft(asset(2, b'B'));
    wallet.add_nft(asset(3, b'C'));
    wallet.remove_nft(&owner(2));
    assert_eq!(tag_of(&wallet.nfts[0]), Some(b'A'));
    assert_eq!(tag_of(&wallet.nfts[1]), None);
    assert_eq!(tag_of(&wallet.nfts[2]), Some(b'C'));
    wallet.add_nft(asset(4, b'D'));
    assert_eq!(tag_of(&wallet.nfts[0]), Some(b'A'));
    assert_eq!(tag_of(&wallet.nfts[1]), Some(b'D'));
    assert_eq!(tag_of(&wallet.nfts[2]), Some(b'C'));
    assert_eq!(tag_of(&wallet.nfts[3]), None);
}

#[test]
fn a_lower_empty_slot_wins_over_the_freed_one() {
    let mut wallet = ZeroWallet::new();
    wallet.add_nft(asset(1, 1));
    wallet.add_nft(asset(2, 2));
    wallet.add_nft(asset(3, 3));
    wallet.remove_nft(&owner(1));
    wallet.remove_nft(&owner(3));
    wallet.add_nft(asset(4, 4));
    assert_eq!(tag_of(&wallet.nfts[0]), Some(4));
    assert_eq!(tag_of(&wallet.nfts[1]), Some(2));
    assert_eq!(tag_of(&wallet.nfts[2]), None);
}

#[test]
fn remove_takes_only_the_first_asset_of_an_owner() {
    let mut wallet = ZeroWallet::new();
    wallet.add_nft(asset(9, 1));
    wallet.add_nft(asset(7, 2));
    wallet.add_nft(asset(7, 3));
    wallet.remove_nft(&owner(7));
    assert_eq!(tag_of(&wallet.nfts[0]), Some(1));
    assert_eq!(tag_of(&wallet.nfts[1]), None);
    assert_eq!(tag_of(&wallet.nfts[2]), Some(3));
    assert_eq!(wallet.get_nft(&owner(7)).unwrap().content_hash[0], 3);
    wallet.remove_nft(&owner(7));
    assert!(wallet.get_nft(&owner(7)).is_none());
    assert_eq!(wallet.list_nfts().len(), 1);
}

#[test]
fn remove_of_an_unknown_owner_changes_nothing() {
    let mut wallet = ZeroWallet::new();
    wallet.remove_nft(&owner(1));
    assert!(wallet.is_empty());
    wallet.add_nft(asset(1, 1));
    wallet.add_nft(asset(2, 2));
    wallet.remove_nft(&owner(3));
    assert_eq!(tag_of(&wallet.nfts[0]), Some(1));
    assert_eq!(tag_of(&wallet.nfts[1]), Some(2));
    assert_eq!(wallet.list_nfts().len(), 2);
}

#[test]
fn get_returns_the_first_asset_of_an_owner() {
    let mut wallet = ZeroWallet::new();
    assert!(wallet.get_nft(&owner(1)).is_none());
    wallet.add_nft(asset(1, 1));
    wallet.add_nft(asset(2, 2));
    wallet.add_nft(asset(2, 3));
    assert_eq!(wallet.get_nft(&owner(1)).unwrap().content_hash[0], 1);
    assert_eq!(wallet.get_nft(&owner(2)).unwrap().content_hash[0], 2);
    assert!(wallet.get_nft(&owner(3)).is_none());
}

#[test]
fn owner_match_is_over_the_whole_identity() {
    let mut wallet = ZeroWallet::new();
    wallet.add_nft(asset(1, 1));
    let mut near = owner(1);
    near.signature[63] = 1;
    assert!(wallet.get_nft(&near).is_none());
    wallet.remove_nft(&near);
    assert_eq!(wallet.list_nfts().len(), 1);
}

#[test]
fn listing_keeps_slot_order_and_skips_empty_slots() {
    let mut wallet = ZeroWallet::new();
    for i in 0..5u8 {
        wallet.add_nft(asset(i + 1, i + 1));
    }
    wallet.remove_nft(&owner(2));
    wallet.remove_nft(&owner(4));
    let listed: Vec<u8> = wallet.list_nfts().iter().map(|nft| nft.content_hash[0]).collect();
    assert_eq!(listed, vec![1, 3, 5]);
    let again: Vec<u8> = wallet.list_nfts().iter().map(|nft| nft.content_hash[0]).collect();
    assert_eq!(again, vec![1, 3, 5]);
}

#[test]
fn set_and_get_slots() {
    let mut source = ZeroWallet::new();
    source.add_nft(asset(1, 1));
    source.add_nft(asset(2, 2));
    source.remove_nft(&owner(1));
    let slots = source.nfts.clone();
    let mut wallet = ZeroWallet::new();
    wallet.add_nft(asset(9, 9));
    wallet.set_nfts(slots);
    assert_eq!(tag_of(&wallet.get_nfts()[0]), None);
    assert_eq!(tag_of(&wallet.get_nfts()[1]), Some(2));
    assert_eq!(wallet.list_nfts().len(), 1);
}

#[test]
fn clear_nfts_empties_every_slot_and_nothing_else() {
    let mut wallet = ZeroWallet::new();
    wallet.set_id(owner(5));
    for i in 0..10u8 {
        wallet.add_nft(asset(i + 1, i));
    }
    wallet.clear_nfts();
    assert!(wallet.nfts.iter().all(|slot| slot.is_none()));
    assert!(!wallet.is_full());
    assert!(*wallet.get_id() == owner(5));
}

#[test]
fn full_and_empty_are_structural() {
    let mut wallet = ZeroWallet::new();
    assert!(wallet.is_empty() && !wallet.is_full());
    wallet.add_nft(asset(1, 1));
    assert!(!wallet.is_empty() && !wallet.is_full());
    for i in 1..10u8 {
        wallet.add_nft(asset(i + 1, i));
    }
    assert!(!wallet.is_empty() && wallet.is_full());
    wallet.remove_nft(&owner(10));
    assert!(!wallet.is_full());
}
