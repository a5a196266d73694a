//! The hashing primitive: a 256-bit digest of a byte string, named rather
//! than spelled out, since it is an outside cryptographic function.

use vstd::prelude::*;

verus! {

/// The keccak-256 digest of a byte string: a function of the bytes alone.
pub uninterp spec fn keccak_of(bytes: Seq<u8>) -> Seq<u8>;

/// Relies on `alloy_primitives::keccak256` for the digest; its result is
/// 32 bytes and depends on the input bytes alone.
#[verifier::external_body]
pub(crate) fn keccak(bytes: &Vec<u8>) -> (r: Vec<u8>)
    ensures
        r@ == keccak_of(bytes@),
        r@.len() == 32,
{
    alloy_primitives::keccak256(bytes.as_slice()).to_vec()
}

} // verus!
