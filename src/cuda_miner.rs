//! The host side of GPU mining.
use vstd::prelude::*;
use crate::candidate::{storage_key, storage_key_of};
use crate::hash::{keccak256, keccak_of};
use crate::error::MineError;
use crate::nibble::{DIGEST_NIBBLES, prefix_matches};

verus! {

/// Whether this build can launch the GPU kernel. It carries no kernel, so the
/// answer is no.
pub fn cuda_available() -> (r: bool)
    ensures
        !r,
{
    false
}

/// Mines one storage slot on the GPU. This build carries no kernel, so the call
/// fails with `GpuUnavailable`; choosing the CPU instead is the caller's call.
pub fn mine_with_cuda(_target_prefix: &[u8; 32], _required_nibbles: usize, _base_slot: u64) -> (r:
    Result<Option<([u8; 20], [u8; 32])>, MineError>)
    ensures
        r == Err::<Option<([u8; 20], [u8; 32])>, MineError>(MineError::GpuUnavailable),
{
    Err(MineError::GpuUnavailable)
}

/// Checks what a device reported for one storage-slot search: the answer is
/// kept only when the found-flag is set, the storage key is that of the
/// address in the mapping at `base_slot`, and the digest of the key matches
/// `required_nibbles` nibbles of `target_prefix`.
pub fn accept_device_result(
    target_prefix: &[u8; 32],
    required_nibbles: usize,
    base_slot: u64,
    found: bool,
    address: &[u8; 20],
    key: &[u8; 32],
) -> (r: Option<([u8; 20], [u8; 32])>)
    requires
        required_nibbles <= DIGEST_NIBBLES,
    ensures
        r is Some <==> (found && key@ == storage_key_of(address@, base_slot) && prefix_matches(
            keccak_of(key@),
            target_prefix@,
            required_nibbles as int,
        )),
        r matches Some(p) ==> p.0 == *address && p.1 == *key,
{
    if !found {
        return None;
    }
    let expected = storage_key(address, base_slot);
    let mut i: usize = 0;
    while i < 32
        invariant
            i <= 32,
            expected@ == storage_key_of(address@, base_slot),
            forall|j: int| 0 <= j < i ==> #[trigger] expected@[j] == key@[j],
        decreases 32 - i,
    {
        if expected[i] != key[i] {
            return None;
        }
        i = i + 1;
    }
    assert(expected@ =~= key@);
    let digest = keccak256(key);
    if crate::nibble::matches(&digest, target_prefix, required_nibbles) {
        Some((*address, *key))
    } else {
        None
    }
}

} // verus!
