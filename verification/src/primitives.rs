//! Transaction payloads and the signed envelope.
//!
//! An envelope binds a payload, an anti-replay nonce and a fee under one
//! signature: the signed byte string is exactly the payload's canonical
//! bytes followed by the nonce and the fee, each as 8 little-endian bytes,
//! so tampering with any of the three invalidates the signature.

use vstd::prelude::*;
use crate::codec::{le_bytes, str_bytes, str_list_bytes, Canonical};
use crate::codec::{push_str_bytes, push_str_list_bytes, push_u128_le, push_u64_le};
use crate::crypto::ed25519_verifies;
use crate::identity::{PublicKey, Signature, Signer};

verus! {

/// A bid from an advertiser. `price` is in the smallest currency unit; the
/// 128-bit `id` is the bid's unique identifier; `targeting` is the set of
/// tags the bid is willing to match; `adm` is the ad markup to serve.
#[derive(Clone, Debug, PartialEq, Eq)]
pub struct Bid {
    pub id: u128,
    pub price: u64,
    pub targeting: Vec<String>,
    pub adm: String,
}

/// A publisher's request for an ad: ephemeral, alive only for the duration
/// of one auction-triggering transaction.
#[derive(Clone, Debug, PartialEq, Eq)]
pub struct AuctionTrigger {
    pub id: u128,
    pub bid_floor: u64,
    pub attributes: Vec<String>,
}

/// A successful match between a bid and an auction trigger, emitted as an
/// effect for downstream consumers. First-price semantics: `winning_price`
/// is the winning bid's own price.
#[derive(Clone, Debug, PartialEq, Eq)]
pub struct Match {
    pub bid_id: u128,
    pub auction_id: u128,
    pub winning_price: u64,
    pub advertiser_addr: String,
    pub publisher_addr: String,
}

impl Canonical for Bid {
    open spec fn canon(&self) -> Seq<u8> {
        le_bytes(self.id as nat, 16) + le_bytes(self.price as nat, 8) + le_bytes(
            self.targeting@.len(),
            8,
        ) + str_list_bytes(self.targeting.deep_view()) + str_bytes(self.adm@)
    }

    fn canonical_bytes(&self) -> (r: Vec<u8>) {
        let mut r: Vec<u8> = Vec::new();
        push_u128_le(&mut r, self.id);
        push_u64_le(&mut r, self.price);
        push_u64_le(&mut r, self.targeting.len() as u64);
        push_str_list_bytes(&mut r, &self.targeting);
        push_str_bytes(&mut r, &self.adm);
        proof {
            assert(r@ =~= self.canon());
        }
        r
    }
}

impl Canonical for AuctionTrigger {
    open spec fn canon(&self) -> Seq<u8> {
        le_bytes(self.id as nat, 16) + le_bytes(self.bid_floor as nat, 8) + le_bytes(
            self.attributes@.len(),
            8,
        ) + str_list_bytes(self.attributes.deep_view())
    }

    fn canonical_bytes(&self) -> (r: Vec<u8>) {
        let mut r: Vec<u8> = Vec::new();
        push_u128_le(&mut r, self.id);
        push_u64_le(&mut r, self.bid_floor);
        push_u64_le(&mut r, self.attributes.len() as u64);
        push_str_list_bytes(&mut r, &self.attributes);
        proof {
            assert(r@ =~= self.canon());
        }
        r
    }
}

/// The exact byte string that an envelope's signature must cover: the
/// payload's canonical bytes, then the nonce and the fee as 8 little-endian
/// bytes each.
pub open spec fn signed_bytes(payload: Seq<u8>, nonce: u64, fee: u64) -> Seq<u8> {
    payload + le_bytes(nonce as nat, 8) + le_bytes(fee as nat, 8)
}

/// A payload wrapped with a signer, a signature, an anti-replay nonce and a
/// processing fee. Constructed by a client, verified exactly once by the
/// applier before any state mutation, never mutated afterward.
#[derive(Clone, Debug)]
pub struct Signed<T> {
    pub data: T,
    pub signer: PublicKey,
    pub signature: Signature,
    pub nonce: u64,
    pub fee: u64,
}

impl<T: Canonical> Signed<T> {
    /// Whether the envelope's signature is valid for the exact signed byte
    /// string under the declared signer key.
    pub open spec fn valid(&self) -> bool {
        ed25519_verifies(
            self.signer.0@,
            signed_bytes(self.data.canon(), self.nonce, self.fee),
            self.signature.0@,
        )
    }

    /// Recomputes the signed byte string and checks the envelope's
    /// signature against it. Malformed key or signature bytes and
    /// verification mismatches all yield `false`, never a fault.
    pub fn verify(&self) -> (r: bool)
        ensures
            r == self.valid(),
            self.signer.0@.len() != 32 ==> !r,
            self.signature.0@.len() != 64 ==> !r,
    {
        let mut msg = self.data.canonical_bytes();
        push_u64_le(&mut msg, self.nonce);
        push_u64_le(&mut msg, self.fee);
        crate::crypto::ed25519_verify(&self.signer.0, &msg, &self.signature.0)
    }
}

/// The signed byte string binds the nonce and the fee: two envelopes
/// over the same payload bytes whose signatures cover the same byte
/// string necessarily carry the same nonce and the same fee — so a
/// signature on one (payload, nonce, fee) triple never covers a tampered
/// nonce or fee.
pub proof fn lemma_signed_bytes_bind(payload: Seq<u8>, n1: u64, f1: u64, n2: u64, f2: u64)
    requires
        signed_bytes(payload, n1, f1) == signed_bytes(payload, n2, f2),
    ensures
        n1 == n2,
        f1 == f2,
{
    let p = payload.len() as int;
    crate::codec::lemma_le_bytes_len(n1 as nat, 8);
    crate::codec::lemma_le_bytes_len(n2 as nat, 8);
    crate::codec::lemma_le_bytes_len(f1 as nat, 8);
    crate::codec::lemma_le_bytes_len(f2 as nat, 8);
    let s1 = signed_bytes(payload, n1, f1);
    let s2 = signed_bytes(payload, n2, f2);
    assert forall|i: int| 0 <= i < 8 implies le_bytes(n1 as nat, 8)[i] == le_bytes(
        n2 as nat,
        8,
    )[i] by {
        assert(s1[p + i] == le_bytes(n1 as nat, 8)[i]);
        assert(s2[p + i] == le_bytes(n2 as nat, 8)[i]);
    }
    assert(le_bytes(n1 as nat, 8) =~= le_bytes(n2 as nat, 8));
    assert forall|i: int| 0 <= i < 8 implies le_bytes(f1 as nat, 8)[i] == le_bytes(
        f2 as nat,
        8,
    )[i] by {
        assert(s1[p + 8 + i] == le_bytes(f1 as nat, 8)[i]);
        assert(s2[p + 8 + i] == le_bytes(f2 as nat, 8)[i]);
    }
    assert(le_bytes(f1 as nat, 8) =~= le_bytes(f2 as nat, 8));
    assert(crate::codec::pow256(8) == 0x1_0000_0000_0000_0000) by {
        reveal_with_fuel(crate::codec::pow256, 9);
    }
    crate::codec::lemma_le_bytes_injective(n1 as nat, n2 as nat, 8);
    crate::codec::lemma_le_bytes_injective(f1 as nat, f2 as nat, 8);
}

/// Signs `data` with `signer`, producing an envelope that verification
/// accepts: the signature covers the canonical payload bytes together with
/// the given nonce and fee.
pub fn sign_envelope<T: Canonical, S: Signer>(signer: &S, data: T, nonce: u64, fee: u64) -> (r:
    Signed<T>)
    requires
        signer.wf(),
    ensures
        r.valid(),
        r.data == data,
        r.nonce == nonce,
        r.fee == fee,
        r.signer.0@ == signer.spec_public_key(),
{
    let mut msg = data.canonical_bytes();
    push_u64_le(&mut msg, nonce);
    push_u64_le(&mut msg, fee);
    let signature = signer.sign(&msg);
    Signed { data, signer: signer.public_key(), signature, nonce, fee }
}

} // verus!
