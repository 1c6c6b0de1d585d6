//! Trusted boundary to the Ed25519 signature scheme and to hex encoding.
//!
//! The wrappers here are the only places where the library calls the
//! `ed25519_dalek` and `hex` crates; everything the rest of the library
//! knows about them is stated in the contracts below.

use vstd::prelude::*;

verus! {

/// Whether Ed25519 signature verification accepts `sig` as a signature on
/// `msg` under the public key `pk`. Abbreviates parsing the 32-byte key and
/// the 64-byte signature and running the scheme's verification equation; it
/// is a pure function of the three byte strings.
pub uninterp spec fn ed25519_verifies(pk: Seq<u8>, msg: Seq<u8>, sig: Seq<u8>) -> bool;

/// The 32-byte Ed25519 public key derived from a 32-byte secret key; key
/// derivation is a pure function of the secret bytes.
pub uninterp spec fn ed25519_pk_of(secret: Seq<u8>) -> Seq<u8>;

/// Relies on `ed25519_dalek::PublicKey::from_bytes`,
/// `ed25519_dalek::Signature::from_bytes` and
/// `ed25519_dalek::PublicKey::verify`: parsing rejects a key that is not
/// 32 bytes and a signature that is not 64 bytes (yielding `false` here,
/// never a fault), and verification of a parsed key and signature is a
/// deterministic function of key, message and signature bytes.
#[verifier::external_body]
pub(crate) fn ed25519_verify(pk: &Vec<u8>, msg: &Vec<u8>, sig: &Vec<u8>) -> (r: bool)
    ensures
        r == ed25519_verifies(pk@, msg@, sig@),
        pk@.len() != 32 ==> !r,
        sig@.len() != 64 ==> !r,
{
    let public_key = match ed25519_dalek::PublicKey::from_bytes(pk.as_slice()) {
        Ok(k) => k,
        Err(_) => return false,
    };
    let signature = match ed25519_dalek::Signature::from_bytes(sig.as_slice()) {
        Ok(s) => s,
        Err(_) => return false,
    };
    ed25519_dalek::Verifier::verify(&public_key, msg.as_slice(), &signature).is_ok()
}

/// Relies on `ed25519_dalek::Keypair::generate` with the operating system's
/// entropy source: it returns a fresh 32-byte secret key together with the
/// 32-byte public key derived from it. Nothing is assumed about which key
/// comes back.
#[verifier::external_body]
pub(crate) fn ed25519_generate() -> (r: (Vec<u8>, Vec<u8>))
    ensures
        r.0@.len() == 32,
        r.1@.len() == 32,
        r.1@ == ed25519_pk_of(r.0@),
{
    let mut csprng = rand::rngs::OsRng {};
    let keypair = ed25519_dalek::Keypair::generate(&mut csprng);
    (keypair.secret.to_bytes().to_vec(), keypair.public.to_bytes().to_vec())
}

/// Relies on `ed25519_dalek::Keypair::sign`: signing is deterministic and
/// produces a 64-byte signature that the scheme's own verification accepts
/// on the signed message under the derived public key.
#[verifier::external_body]
pub(crate) fn ed25519_sign(secret: &Vec<u8>, msg: &Vec<u8>) -> (r: Vec<u8>)
    requires
        secret@.len() == 32,
    ensures
        r@.len() == 64,
        ed25519_verifies(ed25519_pk_of(secret@), msg@, r@),
{
    let sk = ed25519_dalek::SecretKey::from_bytes(secret.as_slice()).unwrap();
    let pk = ed25519_dalek::PublicKey::from(&sk);
    let keypair = ed25519_dalek::Keypair { secret: sk, public: pk };
    let signature = ed25519_dalek::Signer::sign(&keypair, msg.as_slice());
    signature.to_bytes().to_vec()
}

/// The lower-case hex digit for a value below 16.
pub open spec fn hex_digit(n: int) -> char {
    if n == 0 {
        '0'
    } else if n == 1 {
        '1'
    } else if n == 2 {
        '2'
    } else if n == 3 {
        '3'
    } else if n == 4 {
        '4'
    } else if n == 5 {
        '5'
    } else if n == 6 {
        '6'
    } else if n == 7 {
        '7'
    } else if n == 8 {
        '8'
    } else if n == 9 {
        '9'
    } else if n == 10 {
        'a'
    } else if n == 11 {
        'b'
    } else if n == 12 {
        'c'
    } else if n == 13 {
        'd'
    } else if n == 14 {
        'e'
    } else {
        'f'
    }
}

/// Lower-case hex encoding of a byte string: two digits per byte, high
/// nibble first.
pub open spec fn hex_of(s: Seq<u8>) -> Seq<char>
    decreases s.len(),
{
    if s.len() == 0 {
        Seq::empty()
    } else {
        hex_of(s.drop_last()) + seq![
            hex_digit(s.last() as int / 16),
            hex_digit(s.last() as int % 16),
        ]
    }
}

/// Relies on `hex::encode`: it renders each input byte as two lower-case
/// hex digits, high nibble first, in input order.
#[verifier::external_body]
pub(crate) fn hex_encode(bytes: &Vec<u8>) -> (r: String)
    ensures
        r@ == hex_of(bytes@),
{
    hex::encode(bytes.as_slice())
}

} // verus!
