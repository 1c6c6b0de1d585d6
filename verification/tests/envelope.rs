use unwalled_node::codec::Canonical;
use unwalled_node::identity::{address_of, LocalWallet, PublicKey, Signer};
use unwalled_node::primitives::{sign_envelope, AuctionTrigger, Bid, Signed};

fn sample_bid() -> Bid {
    Bid {
        id: 7,
        price: 150,
        targeting: vec!["sports".to_string(), "news".to_string()],
        adm: "<ad/>".to_string(),
    }
}

#[test]
fn sign_then_verify_roundtrip() {
    let wallet = LocalWallet::new();
    let envelope = sign_envelope(&wallet, sample_bid(), 0, 10);
    assert!(envelope.verify());
}

#[test]
fn verify_rejects_tampered_nonce() {
    let wallet = LocalWallet::new();
    let envelope = sign_envelope(&wallet, sample_bid(), 0, 10);
    let tampered = Signed { nonce: 1, ..envelope };
    assert!(!tampered.verify());
}

#[test]
fn verify_rejects_tampered_fee() {
    let wallet = LocalWallet::new();
    let envelope = sign_envelope(&wallet, sample_bid(), 0, 10);
    let tampered = Signed { fee: 11, ..envelope };
    assert!(!tampered.verify());
}

#[test]
fn verify_rejects_tampered_payload() {
    let wallet = LocalWallet::new();
    let envelope = sign_envelope(&wallet, sample_bid(), 0, 10);
    let mut bid = sample_bid();
    bid.price = 151;
    let tampered = Signed { data: bid, ..envelope };
    assert!(!tampered.verify());
}

#[test]
fn verify_rejects_flipped_signature_byte() {
    let wallet = LocalWallet::new();
    let envelope = sign_envelope(&wallet, sample_bid(), 0, 10);
    let mut sig = envelope.signature.0.clone();
    sig[0] ^= 1;
    let tampered = Signed {
        signature: unwalled_node::identity::Signature(sig),
        ..envelope
    };
    assert!(!tampered.verify());
}

#[test]
fn verify_rejects_wrong_signer() {
    let wallet = LocalWallet::new();
    let other = LocalWallet::new();
    let envelope = sign_envelope(&wallet, sample_bid(), 0, 10);
    let tampered = Signed { signer: other.public_key(), ..envelope };
    assert!(!tampered.verify());
}

#[test]
fn verify_rejects_malformed_key_and_signature() {
    let wallet = LocalWallet::new();
    let envelope = sign_envelope(&wallet, sample_bid(), 0, 10);
    let short_key = Signed {
        signer: PublicKey(vec![1, 2, 3]),
        ..envelope.clone()
    };
    assert!(!short_key.verify());
    let short_sig = Signed {
        signature: unwalled_node::identity::Signature(vec![9; 10]),
        ..envelope
    };
    assert!(!short_sig.verify());
}

#[test]
fn canonical_bytes_exact_layout() {
    let bid = Bid {
        id: 1,
        price: 2,
        targeting: vec!["a".to_string()],
        adm: "b".to_string(),
    };
    let mut expected: Vec<u8> = Vec::new();
    expected.extend_from_slice(&1u128.to_le_bytes());
    expected.extend_from_slice(&2u64.to_le_bytes());
    expected.extend_from_slice(&1u64.to_le_bytes());
    expected.extend_from_slice(&1u64.to_le_bytes());
    expected.push(b'a');
    expected.extend_from_slice(&1u64.to_le_bytes());
    expected.push(b'b');
    assert_eq!(bid.canonical_bytes(), expected);

    let auction = AuctionTrigger {
        id: 3,
        bid_floor: 4,
        attributes: vec!["xy".to_string()],
    };
    let mut expected: Vec<u8> = Vec::new();
    expected.extend_from_slice(&3u128.to_le_bytes());
    expected.extend_from_slice(&4u64.to_le_bytes());
    expected.extend_from_slice(&1u64.to_le_bytes());
    expected.extend_from_slice(&2u64.to_le_bytes());
    expected.extend_from_slice(b"xy");
    assert_eq!(auction.canonical_bytes(), expected);
}

#[test]
fn address_is_lowercase_hex_of_key() {
    let pk = PublicKey(vec![0x00, 0x1f, 0xab, 0xff]);
    assert_eq!(address_of(&pk), "001fabff");
}

#[test]
fn wallet_address_matches_public_key_hex() {
    let wallet = LocalWallet::new();
    let pk = wallet.public_key();
    assert_eq!(pk.0.len(), 32);
    let expected: String = pk.0.iter().map(|b| format!("{:02x}", b)).collect();
    assert_eq!(wallet.address(), expected);
    assert_eq!(address_of(&pk), expected);
}
