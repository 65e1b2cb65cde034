//! The byte encodings that the ledger takes from `parity-scale-codec`.
//!
//! Nothing here is proved: each function states what the codec's source shows
//! of the call it makes.

use vstd::prelude::*;

verus! {

/// The `n` low bytes of `x`, least significant first.
pub open spec fn le_bytes(x: nat, n: nat) -> Seq<u8>
    decreases n,
{
    if n == 0 {
        Seq::empty()
    } else {
        seq![(x % 256) as u8] + le_bytes(x / 256, (n - 1) as nat)
    }
}

/// `Encode::encode` of the codec on a `u128`. The codec writes a fixed-width
/// integer as its bytes in little-endian order: sixteen bytes here.
#[verifier::external_body]
pub(crate) fn encode_u128(v: u128) -> (r: Vec<u8>)
    ensures
        r@ == le_bytes(v as nat, 16),
{
    parity_scale_codec::Encode::encode(&v)
}

/// `Encode::encode` of the codec on a `u64`: its eight bytes in little-endian
/// order.
#[verifier::external_body]
pub(crate) fn encode_u64(v: u64) -> (r: Vec<u8>)
    ensures
        r@ == le_bytes(v as nat, 8),
{
    parity_scale_codec::Encode::encode(&v)
}

/// `Encode::encode` of the codec on a `u16`: its two bytes, the low one first.
#[verifier::external_body]
pub(crate) fn encode_u16(v: u16) -> (r: Vec<u8>)
    ensures
        r@ == le_bytes(v as nat, 2),
{
    parity_scale_codec::Encode::encode(&v)
}

/// `Encode::encode` of the codec on an array of bytes. The codec writes an
/// array without a length prefix, and a byte as itself: the result is the
/// array's bytes in order.
#[verifier::external_body]
pub(crate) fn encode_bytes<const N: usize>(a: &[u8; N]) -> (r: Vec<u8>)
    ensures
        r@ == a@,
{
    parity_scale_codec::Encode::encode(a)
}

} // verus!
