use unwalled_node::inventory::{BidInventory, InventoryEntry};
use unwalled_node::primitives::{AuctionTrigger, Bid};

fn entry(id: u128, price: u64, tags: &[&str], advertiser: &str) -> InventoryEntry {
    InventoryEntry {
        bid: Bid {
            id,
            price,
            targeting: tags.iter().map(|t| t.to_string()).collect(),
            adm: "<ad/>".to_string(),
        },
        advertiser: advertiser.to_string(),
    }
}

fn auction(id: u128, bid_floor: u64, attrs: &[&str]) -> AuctionTrigger {
    AuctionTrigger {
        id,
        bid_floor,
        attributes: attrs.iter().map(|a| a.to_string()).collect(),
    }
}

#[test]
fn highest_price_wins() {
    let mut inventory = BidInventory::new();
    assert!(inventory.place_bid(entry(1, 100, &["sports"], "a1")));
    assert!(inventory.place_bid(entry(2, 300, &["sports"], "a2")));
    assert!(inventory.place_bid(entry(3, 200, &["sports"], "a3")));
    let m = inventory
        .find_match(&auction(9, 50, &["sports"]), &"pub".to_string())
        .expect("expected a match");
    assert_eq!(m.bid_id, 2);
    assert_eq!(m.winning_price, 300);
    assert_eq!(m.auction_id, 9);
    assert_eq!(m.advertiser_addr, "a2");
    assert_eq!(m.publisher_addr, "pub");
}

#[test]
fn equal_price_tie_breaks_to_lowest_id() {
    let mut inventory = BidInventory::new();
    assert!(inventory.place_bid(entry(8, 200, &["sports"], "b")));
    assert!(inventory.place_bid(entry(3, 200, &["sports"], "a")));
    let m = inventory
        .find_match(&auction(1, 100, &["sports"]), &"pub".to_string())
        .expect("expected a match");
    assert_eq!(m.bid_id, 3);
    assert_eq!(m.winning_price, 200);
}

#[test]
fn repeated_calls_return_same_match() {
    let mut inventory = BidInventory::new();
    assert!(inventory.place_bid(entry(5, 120, &["news", "sports"], "a")));
    assert!(inventory.place_bid(entry(6, 120, &["news"], "b")));
    let trigger = auction(2, 100, &["news"]);
    let first = inventory.find_match(&trigger, &"pub".to_string());
    let second = inventory.find_match(&trigger, &"pub".to_string());
    assert_eq!(first, second);
    assert_eq!(first.unwrap().bid_id, 5);
}

#[test]
fn below_floor_is_ineligible() {
    let mut inventory = BidInventory::new();
    assert!(inventory.place_bid(entry(1, 99, &["sports"], "a")));
    assert!(inventory.find_match(&auction(1, 100, &["sports"]), &"pub".to_string()).is_none());
}

#[test]
fn no_shared_tag_is_ineligible() {
    let mut inventory = BidInventory::new();
    assert!(inventory.place_bid(entry(1, 500, &["finance"], "a")));
    assert!(inventory.find_match(&auction(1, 100, &["sports"]), &"pub".to_string()).is_none());
}

#[test]
fn tag_match_is_case_sensitive() {
    let mut inventory = BidInventory::new();
    assert!(inventory.place_bid(entry(1, 500, &["Sports"], "a")));
    assert!(inventory.find_match(&auction(1, 100, &["sports"]), &"pub".to_string()).is_none());
}

#[test]
fn empty_targeting_never_matches() {
    let mut inventory = BidInventory::new();
    assert!(inventory.place_bid(entry(1, 500, &[], "a")));
    assert!(inventory.find_match(&auction(1, 0, &["sports"]), &"pub".to_string()).is_none());
    assert!(inventory.find_match(&auction(2, 0, &[]), &"pub".to_string()).is_none());
}

#[test]
fn duplicate_bid_id_is_refused() {
    let mut inventory = BidInventory::new();
    assert!(inventory.place_bid(entry(1, 100, &["sports"], "a")));
    assert!(!inventory.place_bid(entry(1, 999, &["sports"], "b")));
    let m = inventory
        .find_match(&auction(1, 50, &["sports"]), &"pub".to_string())
        .expect("expected a match");
    assert_eq!(m.winning_price, 100);
}

#[test]
fn remove_bid_empties_inventory() {
    let mut inventory = BidInventory::new();
    assert!(inventory.place_bid(entry(1, 100, &["sports"], "a")));
    assert!(inventory.remove_bid(1));
    assert!(!inventory.remove_bid(1));
    assert!(inventory.find_match(&auction(1, 50, &["sports"]), &"pub".to_string()).is_none());
}
