//! Nibble-prefix matching on 32-byte digests.
use vstd::prelude::*;

verus! {

/// Number of nibbles in a 32-byte digest.
pub const DIGEST_NIBBLES: usize = 64;

/// Nibble `i` of `d`: the high half of byte `i / 2` for even `i`, the low half
/// for odd `i`.
pub open spec fn nibble(d: Seq<u8>, i: int) -> u8 {
    if i % 2 == 0 {
        (d[i / 2] / 16) as u8
    } else {
        (d[i / 2] % 16) as u8
    }
}

/// The first `n` nibbles of `d` equal the first `n` nibbles of `p`.
pub open spec fn prefix_matches(d: Seq<u8>, p: Seq<u8>, n: int) -> bool {
    forall|i: int| 0 <= i < n ==> #[trigger] nibble(d, i) == nibble(p, i)
}

/// Reads one nibble of a digest.
pub fn nibble_at(d: &[u8; 32], i: usize) -> (r: u8)
    requires
        i < DIGEST_NIBBLES,
    ensures
        r == nibble(d@, i as int),
        r < 16,
{
    let b = d[i / 2];
    if i % 2 == 0 {
        b / 16
    } else {
        b % 16
    }
}

/// Whether the first `n` nibbles of `digest` equal those of `prefix`.
pub fn matches(digest: &[u8; 32], prefix: &[u8; 32], n: usize) -> (r: bool)
    requires
        n <= DIGEST_NIBBLES,
    ensures
        r == prefix_matches(digest@, prefix@, n as int),
{
    let mut i: usize = 0;
    while i < n
        invariant
            i <= n <= DIGEST_NIBBLES,
            prefix_matches(digest@, prefix@, i as int),
        decreases n - i,
    {
        if nibble_at(digest, i) != nibble_at(prefix, i) {
            return false;
        }
        i = i + 1;
    }
    true
}

/// A match on `n` nibbles is a match on every shorter count.
pub proof fn lemma_prefix_shorten(d: Seq<u8>, p: Seq<u8>, n: int, m: int)
    requires
        prefix_matches(d, p, n),
        m <= n,
    ensures
        prefix_matches(d, p, m),
{
}

/// Matching on `n` nibbles is symmetric.
pub proof fn lemma_prefix_symmetric(d: Seq<u8>, p: Seq<u8>, n: int)
    requires
        prefix_matches(d, p, n),
    ensures
        prefix_matches(p, d, n),
{
}

/// Two digests that share `n` nibbles with a third share them with each other.
pub proof fn lemma_prefix_transitive(a: Seq<u8>, b: Seq<u8>, c: Seq<u8>, n: int)
    requires
        prefix_matches(a, b, n),
        prefix_matches(b, c, n),
    ensures
        prefix_matches(a, c, n),
{
    assert forall|i: int| 0 <= i < n implies #[trigger] nibble(a, i) == nibble(c, i) by {
        assert(nibble(a, i) == nibble(b, i));
        assert(nibble(b, i) == nibble(c, i));
    }
}

} // verus!
