use unwalled_node::applier::{apply, ApplyError, ConsensusApp, Effect, ExchangeState, Transaction};
use unwalled_node::identity::{LocalWallet, Signer};
use unwalled_node::primitives::{sign_envelope, AuctionTrigger, Bid, Signed};

fn bid(id: u128, price: u64, tags: &[&str]) -> Bid {
    Bid {
        id,
        price,
        targeting: tags.iter().map(|t| t.to_string()).collect(),
        adm: "<ad/>".to_string(),
    }
}

fn auction(id: u128, bid_floor: u64, attrs: &[&str]) -> AuctionTrigger {
    AuctionTrigger {
        id,
        bid_floor,
        attributes: attrs.iter().map(|a| a.to_string()).collect(),
    }
}

fn place(wallet: &LocalWallet, b: Bid, nonce: u64, fee: u64) -> Transaction {
    Transaction::PlaceBid(sign_envelope(wallet, b, nonce, fee))
}

fn trigger(wallet: &LocalWallet, a: AuctionTrigger, nonce: u64, fee: u64) -> Transaction {
    Transaction::TriggerAuction(sign_envelope(wallet, a, nonce, fee))
}

#[test]
fn nonce_replay_and_gap_are_rejected() {
    let mut state = ExchangeState::new();
    let wallet = LocalWallet::new();
    // advance the account's nonce counter to 5
    for n in 0..5 {
        let tx = place(&wallet, bid(n as u128, 100, &["sports"]), n, 0);
        assert!(apply(&mut state, tx).is_ok());
    }
    let tx = place(&wallet, bid(100, 100, &["sports"]), 5, 0);
    assert!(apply(&mut state, tx).is_ok());
    // replaying nonce 5 must be rejected
    let replay = place(&wallet, bid(101, 100, &["sports"]), 5, 0);
    assert_eq!(apply(&mut state, replay), Err(ApplyError::ReplayedOrOutOfOrderNonce));
    // skipping ahead to nonce 7 must be rejected even though 7 is unused
    let gap = place(&wallet, bid(102, 100, &["sports"]), 7, 0);
    assert_eq!(apply(&mut state, gap), Err(ApplyError::ReplayedOrOutOfOrderNonce));
    // the next expected nonce, 6, is accepted
    let next = place(&wallet, bid(103, 100, &["sports"]), 6, 0);
    assert_eq!(apply(&mut state, next), Ok(Effect::BidPlaced(103)));
}

#[test]
fn invalid_signature_is_a_noop() {
    let mut state = ExchangeState::new();
    let wallet = LocalWallet::new();
    let addr = wallet.address();
    let env = sign_envelope(&wallet, bid(1, 100, &["sports"]), 0, 0);
    let tampered = Signed { nonce: 3, ..env };
    assert_eq!(
        apply(&mut state, Transaction::PlaceBid(tampered)),
        Err(ApplyError::InvalidSignature)
    );
    assert_eq!(state.ledger.get_next_nonce(&addr), 0);
    assert_eq!(state.ledger.get_balance(&addr), 0);
}

#[test]
fn insufficient_fee_is_rejected_before_any_mutation() {
    let mut state = ExchangeState::new();
    let wallet = LocalWallet::new();
    let addr = wallet.address();
    assert!(state.ledger.credit(&addr, 4).is_ok());
    let tx = place(&wallet, bid(1, 100, &["sports"]), 0, 5);
    assert_eq!(apply(&mut state, tx), Err(ApplyError::InsufficientFunds));
    // no partial effect: nonce not advanced, fee not charged, no bid open
    assert_eq!(state.ledger.get_next_nonce(&addr), 0);
    assert_eq!(state.ledger.get_balance(&addr), 4);
    let probe = trigger(&wallet, auction(9, 0, &["sports"]), 0, 0);
    assert_eq!(apply(&mut state, probe), Ok(Effect::NoMatch));
}

#[test]
fn fee_is_debited_on_acceptance() {
    let mut state = ExchangeState::new();
    let wallet = LocalWallet::new();
    let addr = wallet.address();
    assert!(state.ledger.credit(&addr, 100).is_ok());
    let tx = place(&wallet, bid(1, 200, &["sports"]), 0, 5);
    assert_eq!(apply(&mut state, tx), Ok(Effect::BidPlaced(1)));
    assert_eq!(state.ledger.get_balance(&addr), 95);
    assert_eq!(state.ledger.get_next_nonce(&addr), 1);
}

#[test]
fn duplicate_bid_id_still_charges_fee() {
    let mut state = ExchangeState::new();
    let wallet = LocalWallet::new();
    let addr = wallet.address();
    assert!(state.ledger.credit(&addr, 100).is_ok());
    let tx = place(&wallet, bid(1, 200, &["sports"]), 0, 5);
    assert_eq!(apply(&mut state, tx), Ok(Effect::BidPlaced(1)));
    let dup = place(&wallet, bid(1, 300, &["news"]), 1, 5);
    assert_eq!(apply(&mut state, dup), Err(ApplyError::DuplicateBidId));
    // the duplicate consumed its nonce and fee but changed no inventory
    assert_eq!(state.ledger.get_balance(&addr), 90);
    assert_eq!(state.ledger.get_next_nonce(&addr), 2);
}

#[test]
fn auction_scenario_match_then_empty() {
    let mut state = ExchangeState::new();
    let advertiser = LocalWallet::new();
    let publisher = LocalWallet::new();
    let adv_addr = advertiser.address();
    let pub_addr = publisher.address();
    assert!(state.ledger.credit(&adv_addr, 100).is_ok());

    // advertiser places Bid{id=1, price=200, targeting={"sports"}} with
    // fee 5 against balance 100: the fee check passes (100 >= 5; the
    // price is the bid's own offer, not escrowed), so it is accepted
    let tx = place(&advertiser, bid(1, 200, &["sports"]), 0, 5);
    assert_eq!(apply(&mut state, tx), Ok(Effect::BidPlaced(1)));
    assert_eq!(state.ledger.get_balance(&adv_addr), 95);

    // publisher triggers an auction with floor 150 and attributes
    // {"sports", "finance"}: the bid matches at its own price
    let tx = trigger(&publisher, auction(7, 150, &["sports", "finance"]), 0, 0);
    match apply(&mut state, tx) {
        Ok(Effect::Matched(m)) => {
            assert_eq!(m.bid_id, 1);
            assert_eq!(m.auction_id, 7);
            assert_eq!(m.winning_price, 200);
            assert_eq!(m.advertiser_addr, adv_addr);
            assert_eq!(m.publisher_addr, pub_addr);
        },
        other => panic!("expected a match, got {:?}", other),
    }

    // the winning bid was removed: a second identical trigger finds nothing
    let tx = trigger(&publisher, auction(8, 150, &["sports", "finance"]), 1, 0);
    assert_eq!(apply(&mut state, tx), Ok(Effect::NoMatch));
}

#[test]
fn deliver_drives_the_same_reducer() {
    let mut app = ConsensusApp::new(ExchangeState::new());
    let wallet = LocalWallet::new();
    let addr = wallet.address();
    assert!(app.state.ledger.credit(&addr, 10).is_ok());
    let tx = place(&wallet, bid(1, 50, &["sports"]), 0, 10);
    assert_eq!(app.deliver(tx), Ok(Effect::BidPlaced(1)));
    assert_eq!(app.state.ledger.get_balance(&addr), 0);
    let replay = place(&wallet, bid(2, 50, &["sports"]), 0, 0);
    assert_eq!(app.deliver(replay), Err(ApplyError::ReplayedOrOutOfOrderNonce));
}
