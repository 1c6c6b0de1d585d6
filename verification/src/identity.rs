//! Keys, signatures, addresses and signers.

use vstd::prelude::*;
use crate::crypto::{
    ed25519_generate, ed25519_pk_of, ed25519_sign, ed25519_verifies, hex_encode, hex_of,
};

verus! {

/// A public key: the raw bytes of an Ed25519 verification key.
#[derive(Clone, Debug)]
pub struct PublicKey(pub Vec<u8>);

/// A cryptographic signature: the raw bytes of an Ed25519 signature.
#[derive(Clone, Debug)]
pub struct Signature(pub Vec<u8>);

/// A stable account identifier: the lower-case hex encoding of the owner's
/// public key, used as the ledger key.
pub type Address = String;

/// The address derived from a public key. Pure in the key bytes, so every
/// node derives the same address.
pub open spec fn spec_address_of(pk: Seq<u8>) -> Seq<char> {
    hex_of(pk)
}

/// Derives the ledger address of a public key.
pub fn address_of(pk: &PublicKey) -> (r: Address)
    ensures
        r@ == spec_address_of(pk.0@),
{
    hex_encode(&pk.0)
}

/// An entity that can sign bytes: a local keypair, a hardware wallet, or
/// any other scheme that exposes this capability.
pub trait Signer: Sized {
    /// Whether the signer is internally consistent and able to sign.
    spec fn wf(&self) -> bool;

    /// The bytes of the signer's public key.
    spec fn spec_public_key(&self) -> Seq<u8>;

    /// Signs `data`: the result is a 64-byte signature that verifies
    /// under the signer's public key over exactly the given bytes.
    fn sign(&self, data: &Vec<u8>) -> (r: Signature)
        requires
            self.wf(),
        ensures
            r.0@.len() == 64,
            ed25519_verifies(self.spec_public_key(), data@, r.0@),
    ;

    /// The signer's public key.
    fn public_key(&self) -> (r: PublicKey)
        requires
            self.wf(),
        ensures
            r.0@ == self.spec_public_key(),
    ;

    /// The signer's ledger address.
    fn address(&self) -> (r: Address)
        requires
            self.wf(),
        ensures
            r@ == spec_address_of(self.spec_public_key()),
    ;
}

/// A simple local wallet holding an Ed25519 keypair in memory.
#[derive(Debug)]
pub struct LocalWallet {
    secret: Vec<u8>,
    public: Vec<u8>,
}

impl LocalWallet {
    /// Creates a new wallet from a freshly generated random keypair.
    pub fn new() -> (r: LocalWallet)
        ensures
            r.wf(),
    {
        let (secret, public) = ed25519_generate();
        LocalWallet { secret, public }
    }
}

impl Signer for LocalWallet {
    closed spec fn wf(&self) -> bool {
        &&& self.secret@.len() == 32
        &&& self.public@.len() == 32
        &&& self.public@ == ed25519_pk_of(self.secret@)
    }

    closed spec fn spec_public_key(&self) -> Seq<u8> {
        self.public@
    }

    fn sign(&self, data: &Vec<u8>) -> (r: Signature) {
        Signature(ed25519_sign(&self.secret, data))
    }

    fn public_key(&self) -> (r: PublicKey) {
        PublicKey(self.public.clone())
    }

    fn address(&self) -> (r: Address) {
        hex_encode(&self.public)
    }
}

} // verus!
