//! Canonical byte encoding of payloads.
//!
//! Every node must serialize a payload to the same bytes before hashing or
//! signing it, so the encoding is fixed here once and for all: integers are
//! fixed-width little-endian, strings are UTF-8 with an 8-byte little-endian
//! length prefix, and lists are a count followed by the elements in order.

use vstd::prelude::*;
use vstd::string::StrSliceExecFns;
use vstd::utf8::encode_utf8;

verus! {

/// The `n` little-endian base-256 digits of `x`, least significant first.
pub open spec fn le_bytes(x: nat, n: nat) -> Seq<u8>
    decreases n,
{
    if n == 0 {
        Seq::empty()
    } else {
        seq![(x % 256) as u8] + le_bytes(x / 256, (n - 1) as nat)
    }
}

/// Canonical bytes of a string: 8-byte little-endian byte length, then the
/// UTF-8 bytes themselves.
pub open spec fn str_bytes(s: Seq<char>) -> Seq<u8> {
    le_bytes(encode_utf8(s).len(), 8) + encode_utf8(s)
}

/// Canonical bytes of a list of strings, in list order (without the count
/// prefix, which the containing record contributes).
pub open spec fn str_list_bytes(ts: Seq<Seq<char>>) -> Seq<u8>
    decreases ts.len(),
{
    if ts.len() == 0 {
        Seq::empty()
    } else {
        str_list_bytes(ts.drop_last()) + str_bytes(ts.last())
    }
}

/// A payload with a canonical byte form, byte-stable across all nodes.
pub trait Canonical {
    /// The canonical bytes of this payload.
    spec fn canon(&self) -> Seq<u8>;

    /// Computes the canonical bytes.
    fn canonical_bytes(&self) -> (r: Vec<u8>)
        ensures
            r@ == self.canon(),
    ;
}

fn push_le_bytes(out: &mut Vec<u8>, x: u64, n: usize)
    ensures
        final(out)@ == old(out)@ + le_bytes(x as nat, n as nat),
    decreases n,
{
    if n == 0 {
        proof {
            assert(out@ =~= out@ + le_bytes(x as nat, 0));
        }
    } else {
        let b: u8 = (x % 256) as u8;
        let ghost prev = out@;
        out.push(b);
        push_le_bytes(out, x / 256, n - 1);
        proof {
            assert(out@ =~= prev + le_bytes(x as nat, n as nat));
        }
    }
}

/// Appends the 8-byte little-endian form of `x`.
pub fn push_u64_le(out: &mut Vec<u8>, x: u64)
    ensures
        final(out)@ == old(out)@ + le_bytes(x as nat, 8),
{
    push_le_bytes(out, x, 8);
}

fn push_le_bytes_wide(out: &mut Vec<u8>, x: u128, n: usize)
    ensures
        final(out)@ == old(out)@ + le_bytes(x as nat, n as nat),
    decreases n,
{
    if n == 0 {
        proof {
            assert(out@ =~= out@ + le_bytes(x as nat, 0));
        }
    } else {
        let b: u8 = (x % 256) as u8;
        let ghost prev = out@;
        out.push(b);
        push_le_bytes_wide(out, x / 256, n - 1);
        proof {
            assert(out@ =~= prev + le_bytes(x as nat, n as nat));
        }
    }
}

/// Appends the 16-byte little-endian form of `x`.
pub fn push_u128_le(out: &mut Vec<u8>, x: u128)
    ensures
        final(out)@ == old(out)@ + le_bytes(x as nat, 16),
{
    push_le_bytes_wide(out, x, 16);
}

/// `256^k`, the number of values `k` little-endian bytes can carry.
pub open spec fn pow256(k: nat) -> nat
    decreases k,
{
    if k == 0 {
        1
    } else {
        256 * pow256((k - 1) as nat)
    }
}

/// A little-endian encoding always has exactly its declared width.
pub proof fn lemma_le_bytes_len(x: nat, n: nat)
    ensures
        le_bytes(x, n).len() == n,
    decreases n,
{
    if n > 0 {
        lemma_le_bytes_len(x / 256, (n - 1) as nat);
    }
}

/// Fixed-width little-endian encoding is injective below its capacity:
/// two values under `256^n` with the same `n`-byte encoding are equal.
pub proof fn lemma_le_bytes_injective(x: nat, y: nat, n: nat)
    requires
        x < pow256(n),
        y < pow256(n),
        le_bytes(x, n) == le_bytes(y, n),
    ensures
        x == y,
    decreases n,
{
    if n == 0 {
    } else {
        let p = pow256((n - 1) as nat);
        lemma_le_bytes_len(x / 256, (n - 1) as nat);
        lemma_le_bytes_len(y / 256, (n - 1) as nat);
        assert(le_bytes(x, n)[0] == (x % 256) as u8);
        assert(le_bytes(y, n)[0] == (y % 256) as u8);
        assert(le_bytes(x, n).drop_first() =~= le_bytes(x / 256, (n - 1) as nat));
        assert(le_bytes(y, n).drop_first() =~= le_bytes(y / 256, (n - 1) as nat));
        assert(x / 256 < p) by (nonlinear_arith)
            requires
                x < 256 * p,
                p > 0,
        ;
        assert(y / 256 < p) by (nonlinear_arith)
            requires
                y < 256 * p,
                p > 0,
        ;
        lemma_le_bytes_injective(x / 256, y / 256, (n - 1) as nat);
        assert(x == 256 * (x / 256) + x % 256) by (nonlinear_arith);
        assert(y == 256 * (y / 256) + y % 256) by (nonlinear_arith);
    }
}

/// Appends the canonical bytes of the string `s`.
pub fn push_str_bytes(out: &mut Vec<u8>, s: &String)
    ensures
        final(out)@ == old(out)@ + str_bytes(s@),
{
    let mut bytes = s.as_str().as_bytes_vec();
    let ghost prev = out@;
    push_le_bytes(out, bytes.len() as u64, 8);
    out.append(&mut bytes);
    proof {
        assert(out@ =~= prev + str_bytes(s@));
    }
}

/// Appends the canonical bytes of each string in `ts`, in order.
pub fn push_str_list_bytes(out: &mut Vec<u8>, ts: &Vec<String>)
    ensures
        final(out)@ == old(out)@ + str_list_bytes(ts.deep_view()),
{
    let ghost prev = out@;
    let mut i: usize = 0;
    while i < ts.len()
        invariant
            i <= ts@.len(),
            out@ == prev + str_list_bytes(ts.deep_view().take(i as int)),
        decreases ts@.len() - i,
    {
        push_str_bytes(out, &ts[i]);
        proof {
            let dv = ts.deep_view();
            assert(dv.take(i + 1).drop_last() =~= dv.take(i as int));
            assert(dv.take(i + 1).last() == dv[i as int]);
            assert(out@ =~= prev + str_list_bytes(dv.take(i + 1)));
        }
        i = i + 1;
    }
    proof {
        assert(ts.deep_view().take(ts@.len() as int) =~= ts.deep_view());
    }
}

} // verus!
