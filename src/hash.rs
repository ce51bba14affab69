//! The Keccak-256 hash primitive.
use vstd::prelude::*;
use tiny_keccak::Hasher;

verus! {

/// The Keccak-256 digest of a byte sequence.
pub uninterp spec fn keccak_of(data: Seq<u8>) -> Seq<u8>;

/// Relies on tiny_keccak's `Keccak::v256`, `update` and `finalize`: the
/// Keccak-256 digest of `data`, which depends on `data` alone.
#[verifier::external_body]
pub(crate) fn keccak256(data: &[u8]) -> (r: [u8; 32])
    ensures
        r@ == keccak_of(data@),
{
    let mut hasher = tiny_keccak::Keccak::v256();
    let mut out = [0u8; 32];
    hasher.update(data);
    hasher.finalize(&mut out);
    out
}

} // verus!
