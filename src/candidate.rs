//! Derivation of a search candidate from a counter, for storage slots and for
//! CREATE2 salts.
//!
//! Byte layouts: a storage key is the digest of `pad32(address) ‖
//! uint256(base_slot)` and its trie key the digest of the storage key; a
//! CREATE2 address is the low 20 bytes of the digest of `0xff ‖ deployer ‖
//! salt ‖ digest(init_code)` and its trie key the digest of the address.
use vstd::prelude::*;
use crate::hash::{keccak256, keccak_of};

verus! {

/// Byte `k` of `v`, counted from the least significant end.
pub open spec fn u64_byte(v: u64, k: u64) -> u8 {
    ((v >> (8 * k)) & 0xffu64) as u8
}

/// `v` as a big-endian 32-byte word (a `uint256` holding `v`).
pub open spec fn word_of(v: u64) -> Seq<u8> {
    Seq::new(32, |i: int| if i < 24 { 0u8 } else { u64_byte(v, (31 - i) as u64) })
}

/// The candidate address of counter `c`: twelve zero bytes, then `c` big-endian.
pub open spec fn address_of(c: u64) -> Seq<u8> {
    Seq::new(20, |i: int| if i < 12 { 0u8 } else { u64_byte(c, (19 - i) as u64) })
}

/// The Solidity mapping slot of `address` in a mapping declared at slot
/// `base_slot`: the digest of the address left-padded to 32 bytes followed by
/// the slot as a 32-byte word.
pub open spec fn storage_key_of(address: Seq<u8>, base_slot: u64) -> Seq<u8> {
    keccak_of(Seq::new(12, |i: int| 0u8) + address + word_of(base_slot))
}

/// The CREATE2 preimage `0xff ‖ deployer ‖ salt ‖ code_hash`.
pub open spec fn create2_preimage(deployer: Seq<u8>, salt: Seq<u8>, code_hash: Seq<u8>) -> Seq<u8> {
    seq![0xffu8] + deployer + salt + code_hash
}

/// The CREATE2 address: the low 20 bytes of the digest of the preimage.
pub open spec fn create2_address_of(deployer: Seq<u8>, salt: Seq<u8>, code_hash: Seq<u8>) -> Seq<u8> {
    keccak_of(create2_preimage(deployer, salt, code_hash)).subrange(12, 32)
}

/// What a counter is turned into before it is hashed.
#[derive(Clone, Copy, Debug, PartialEq, Eq)]
pub enum CandidateKind {
    /// A holder address in a mapping stored at `base_slot`.
    StorageSlot { base_slot: u64 },
    /// A CREATE2 salt for a contract with the given init-code digest.
    Create2 { deployer: [u8; 20], init_code_hash: [u8; 32] },
}

/// One derived candidate.
///
/// For a storage slot, `address` is the holder, `word` the storage key and
/// `digest` the storage-trie key (digest of the storage key). For a CREATE2
/// candidate, `word` is the salt, `address` the contract address and `digest`
/// the account-trie key (digest of the address).
#[derive(Clone, Copy, Debug, PartialEq, Eq)]
pub struct MinedItem {
    pub counter: u64,
    pub address: [u8; 20],
    pub word: [u8; 32],
    pub digest: [u8; 32],
}

/// The digest that is tested for counter `c`: the trie key of its candidate.
pub open spec fn candidate_digest(kind: CandidateKind, c: u64) -> Seq<u8> {
    match kind {
        CandidateKind::StorageSlot { base_slot } => keccak_of(storage_key_of(address_of(c), base_slot)),
        CandidateKind::Create2 { deployer, init_code_hash } => keccak_of(
            create2_address_of(deployer@, word_of(c), init_code_hash@),
        ),
    }
}

/// `item` is the candidate that `kind` derives from counter `c`.
pub open spec fn is_candidate(kind: CandidateKind, c: u64, item: MinedItem) -> bool {
    &&& item.counter == c
    &&& item.digest@ == candidate_digest(kind, c)
    &&& match kind {
        CandidateKind::StorageSlot { base_slot } => {
            &&& item.address@ == address_of(c)
            &&& item.word@ == storage_key_of(address_of(c), base_slot)
        },
        CandidateKind::Create2 { deployer, init_code_hash } => {
            &&& item.word@ == word_of(c)
            &&& item.address@ == create2_address_of(deployer@, word_of(c), init_code_hash@)
        },
    }
}

/// Appends `b` to `out`.
fn append(out: &mut Vec<u8>, b: &[u8])
    ensures
        final(out)@ == old(out)@ + b@,
{
    let mut i: usize = 0;
    while i < b.len()
        invariant
            i <= b@.len(),
            out@ == old(out)@ + b@.subrange(0, i as int),
        decreases b@.len() - i,
    {
        out.push(b[i]);
        i = i + 1;
        assert(b@.subrange(0, i as int) == b@.subrange(0, i - 1).push(b@[i - 1]));
    }
    assert(b@.subrange(0, b@.len() as int) == b@);
}

/// `v` as a big-endian 32-byte word.
pub fn word_from_counter(v: u64) -> (r: [u8; 32])
    ensures
        r@ == word_of(v),
{
    let mut r = [0u8; 32];
    let mut i: usize = 24;
    while i < 32
        invariant
            24 <= i <= 32,
            r@.len() == 32,
            forall|j: int| 0 <= j < i ==> #[trigger] r@[j] == word_of(v)[j],
            forall|j: int| i <= j < 32 ==> #[trigger] r@[j] == 0u8,
        decreases 32 - i,
    {
        let k: u64 = (31 - i) as u64;
        r[i] = ((v >> (8 * k)) & 0xff) as u8;
        i = i + 1;
    }
    assert(r@ =~= word_of(v));
    r
}

/// The candidate address of counter `c`.
pub fn address_from_counter(c: u64) -> (r: [u8; 20])
    ensures
        r@ == address_of(c),
{
    let mut r = [0u8; 20];
    let mut i: usize = 12;
    while i < 20
        invariant
            12 <= i <= 20,
            r@.len() == 20,
            forall|j: int| 0 <= j < i ==> #[trigger] r@[j] == address_of(c)[j],
            forall|j: int| i <= j < 20 ==> #[trigger] r@[j] == 0u8,
        decreases 20 - i,
    {
        let k: u64 = (19 - i) as u64;
        r[i] = ((c >> (8 * k)) & 0xff) as u8;
        i = i + 1;
    }
    assert(r@ =~= address_of(c));
    r
}

/// The storage key of `address` in a mapping declared at `base_slot`.
pub fn storage_key(address: &[u8; 20], base_slot: u64) -> (r: [u8; 32])
    ensures
        r@ == storage_key_of(address@, base_slot),
{
    let mut pre: Vec<u8> = Vec::new();
    let pad = [0u8; 12];
    append(&mut pre, &pad);
    append(&mut pre, address);
    let w = word_from_counter(base_slot);
    append(&mut pre, &w);
    assert(pad@ =~= Seq::new(12, |i: int| 0u8));
    keccak256(pre.as_slice())
}

/// The CREATE2 address of a contract deployed by `deployer` with `salt`, whose
/// init code has digest `init_code_hash`.
pub fn create2_address_from_hash(deployer: &[u8; 20], salt: &[u8; 32], init_code_hash: &[u8; 32]) -> (r: [u8; 20])
    ensures
        r@ == create2_address_of(deployer@, salt@, init_code_hash@),
{
    let mut pre: Vec<u8> = Vec::new();
    pre.push(0xffu8);
    append(&mut pre, deployer);
    append(&mut pre, salt);
    append(&mut pre, init_code_hash);
    assert(pre@ =~= create2_preimage(deployer@, salt@, init_code_hash@));
    let h = keccak256(pre.as_slice());
    let mut r = [0u8; 20];
    let mut i: usize = 0;
    while i < 20
        invariant
            i <= 20,
            r@.len() == 20,
            h@ == keccak_of(create2_preimage(deployer@, salt@, init_code_hash@)),
            forall|j: int| 0 <= j < i ==> #[trigger] r@[j] == h@[j + 12],
        decreases 20 - i,
    {
        r[i] = h[i + 12];
        i = i + 1;
    }
    assert(r@ =~= h@.subrange(12, 32));
    r
}

/// The CREATE2 address of a contract deployed by `deployer` with `salt` and
/// init code `init_code`.
pub fn create2_address(deployer: &[u8; 20], salt: &[u8; 32], init_code: &[u8]) -> (r: [u8; 20])
    ensures
        r@ == create2_address_of(deployer@, salt@, keccak_of(init_code@)),
{
    let h = init_code_hash(init_code);
    create2_address_from_hash(deployer, salt, &h)
}

/// The digest of a contract's init code, as CREATE2 uses it.
pub fn init_code_hash(init_code: &[u8]) -> (r: [u8; 32])
    ensures
        r@ == keccak_of(init_code@),
{
    keccak256(init_code)
}

/// Derives the candidate of counter `c`.
pub fn derive_candidate(kind: &CandidateKind, c: u64) -> (r: MinedItem)
    ensures
        is_candidate(*kind, c, r),
{
    match kind {
        CandidateKind::StorageSlot { base_slot } => {
            let address = address_from_counter(c);
            let word = storage_key(&address, *base_slot);
            let digest = keccak256(&word);
            MinedItem { counter: c, address, word, digest }
        },
        CandidateKind::Create2 { deployer, init_code_hash } => {
            let word = word_from_counter(c);
            let address = create2_address_from_hash(deployer, &word, init_code_hash);
            let digest = keccak256(&address);
            MinedItem { counter: c, address, word, digest }
        },
    }
}

proof fn lemma_byte_eq(a: u64, b: u64, k: u64)
    requires
        k < 8,
        u64_byte(a, k) == u64_byte(b, k),
    ensures
        ((a >> (8 * k) as u64) & 0xff) == ((b >> (8 * k) as u64) & 0xff),
{
    let s: u64 = (8 * k) as u64;
    assert(u64_byte(a, k) == ((a >> s) & 0xff) as u8);
    assert(u64_byte(b, k) == ((b >> s) & 0xff) as u8);
    assert(((a >> s) & 0xff) == ((b >> s) & 0xff)) by (bit_vector)
        requires
            ((a >> s) & 0xff) as u8 == ((b >> s) & 0xff) as u8,
    ;
}

/// A `u64` is fixed by its eight bytes.
proof fn lemma_bytes_determine(a: u64, b: u64)
    requires
        forall|k: u64| k < 8 ==> #[trigger] u64_byte(a, k) == u64_byte(b, k),
    ensures
        a == b,
{
    lemma_byte_eq(a, b, 0);
    lemma_byte_eq(a, b, 1);
    lemma_byte_eq(a, b, 2);
    lemma_byte_eq(a, b, 3);
    lemma_byte_eq(a, b, 4);
    lemma_byte_eq(a, b, 5);
    lemma_byte_eq(a, b, 6);
    lemma_byte_eq(a, b, 7);
    assert(a == b) by (bit_vector)
        requires
            ((a >> 0u64) & 0xff) == ((b >> 0u64) & 0xff),
            ((a >> 8u64) & 0xff) == ((b >> 8u64) & 0xff),
            ((a >> 16u64) & 0xff) == ((b >> 16u64) & 0xff),
            ((a >> 24u64) & 0xff) == ((b >> 24u64) & 0xff),
            ((a >> 32u64) & 0xff) == ((b >> 32u64) & 0xff),
            ((a >> 40u64) & 0xff) == ((b >> 40u64) & 0xff),
            ((a >> 48u64) & 0xff) == ((b >> 48u64) & 0xff),
            ((a >> 56u64) & 0xff) == ((b >> 56u64) & 0xff),
    ;
}

/// Distinct counters give distinct storage-slot addresses.
pub proof fn lemma_address_of_injective(a: u64, b: u64)
    requires
        address_of(a) == address_of(b),
    ensures
        a == b,
{
    assert forall|k: u64| k < 8 implies #[trigger] u64_byte(a, k) == u64_byte(b, k) by {
        assert(address_of(a)[(19 - k) as int] == address_of(b)[(19 - k) as int]);
        assert(address_of(a)[(19 - k) as int] == u64_byte(a, k));
        assert(address_of(b)[(19 - k) as int] == u64_byte(b, k));
    }
    lemma_bytes_determine(a, b);
}

/// Distinct counters give distinct CREATE2 salts.
pub proof fn lemma_word_of_injective(a: u64, b: u64)
    requires
        word_of(a) == word_of(b),
    ensures
        a == b,
{
    assert forall|k: u64| k < 8 implies #[trigger] u64_byte(a, k) == u64_byte(b, k) by {
        assert(word_of(a)[(31 - k) as int] == word_of(b)[(31 - k) as int]);
        assert(word_of(a)[(31 - k) as int] == u64_byte(a, k));
        assert(word_of(b)[(31 - k) as int] == u64_byte(b, k));
    }
    lemma_bytes_determine(a, b);
}

} // verus!
