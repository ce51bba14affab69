//! Building a deep trie branch out of a sequence of searches, one per level.
use vstd::prelude::*;
use crate::candidate::{
    CandidateKind, MinedItem, derive_candidate, init_code_hash, is_candidate, lemma_address_of_injective, lemma_word_of_injective,
};
use crate::error::MineError;
use crate::hash::keccak_of;
use crate::nibble::{
    DIGEST_NIBBLES, lemma_prefix_shorten, lemma_prefix_symmetric, lemma_prefix_transitive,
    prefix_matches,
};
use crate::search::{SearchOutcome, SearchTask, is_first_hit, no_hit_in, search};

verus! {

/// Which digest the levels after the first must share a prefix with.
///
/// The two choices give different trie shapes (one long shared path, or a
/// nested run of shorter ones); `Persistent` is the usual one, and the shape
/// wanted should be confirmed before mined output is relied on.
#[derive(Clone, Copy, Debug, PartialEq, Eq)]
pub enum PrefixPolicy {
    /// Every level is matched against the digest of the first level: the
    /// branch follows one long shared path.
    Persistent,
    /// Every level is matched against the digest of the level before it.
    Reseed,
}

/// How many nibbles level `k` (from 0) must match when levels stop deepening
/// at `cap`.
pub open spec fn level_nibbles(k: int, cap: int) -> int {
    if k + 1 < cap {
        k + 1
    } else {
        cap
    }
}

/// The all-zero digest, target of the first level.
pub open spec fn zero_digest() -> Seq<u8> {
    Seq::new(32, |i: int| 0u8)
}

/// The target of level `k` of branch `b`.
pub open spec fn level_target(b: Seq<MinedItem>, k: int, policy: PrefixPolicy) -> Seq<u8> {
    if k == 0 {
        zero_digest()
    } else {
        match policy {
            PrefixPolicy::Persistent => b[0].digest@,
            PrefixPolicy::Reseed => b[k - 1].digest@,
        }
    }
}

/// The first counter searched at level `k`: the one after the counter of the
/// level before.
pub open spec fn level_base(b: Seq<MinedItem>, k: int) -> int {
    if k == 0 {
        0
    } else if b[k - 1].counter < u64::MAX {
        b[k - 1].counter + 1
    } else {
        u64::MAX as int
    }
}

/// How many counters level `k` may try: `attempts`, cut where `u64` ends.
pub open spec fn level_budget(b: Seq<MinedItem>, k: int, attempts: u64) -> int {
    if attempts <= u64::MAX - level_base(b, k) {
        attempts as int
    } else {
        u64::MAX - level_base(b, k)
    }
}

/// Level `k` of `b` meets its target, and the counters grow level by level.
pub open spec fn branch_wf(kind: CandidateKind, b: Seq<MinedItem>, cap: int, policy: PrefixPolicy) -> bool {
    forall|k: int|
        0 <= k < b.len() ==> {
            &&& is_candidate(kind, (#[trigger] b[k]).counter, b[k])
            &&& prefix_matches(b[k].digest@, level_target(b, k, policy), level_nibbles(k, cap))
            &&& (k > 0 ==> b[k - 1].counter < b[k].counter)
        }
}

/// Every level of `b` is what the search of that level returns, given the
/// levels before it.
pub open spec fn branch_mined(
    kind: CandidateKind,
    b: Seq<MinedItem>,
    cap: int,
    policy: PrefixPolicy,
    attempts: u64,
) -> bool {
    forall|k: int|
        0 <= k < b.len() ==> is_first_hit(
            kind,
            level_target(b, k, policy),
            level_nibbles(k, cap),
            level_base(b, k),
            level_budget(b, k, attempts),
            SearchOutcome::Found(#[trigger] b[k]),
        )
}

/// The search task of the next level of branch `b`.
pub fn level_task(b: &Vec<MinedItem>, cap: usize, policy: PrefixPolicy, attempts: u64) -> (r: SearchTask)
    requires
        cap <= DIGEST_NIBBLES,
    ensures
        r.wf(),
        r.target@ == level_target(b@, b@.len() as int, policy),
        r.required_nibbles == level_nibbles(b@.len() as int, cap as int),
        r.base == level_base(b@, b@.len() as int),
        r.max_attempts == level_budget(b@, b@.len() as int, attempts),
{
    let k = b.len();
    let target: [u8; 32] = if k == 0 {
        let z = [0u8; 32];
        assert(z@ =~= zero_digest());
        z
    } else {
        match policy {
            PrefixPolicy::Persistent => b[0].digest,
            PrefixPolicy::Reseed => b[k - 1].digest,
        }
    };
    let required_nibbles: usize = if k < cap {
        k + 1
    } else {
        cap
    };
    let base: u64 = if k == 0 {
        0
    } else if b[k - 1].counter < u64::MAX {
        b[k - 1].counter + 1
    } else {
        u64::MAX
    };
    let max_attempts: u64 = if attempts <= u64::MAX - base {
        attempts
    } else {
        u64::MAX - base
    };
    SearchTask { target, required_nibbles, base, max_attempts }
}

/// Accepts a depth of 1 to 64 nibbles.
pub fn check_depth(depth: usize) -> (r: Result<(), MineError>)
    ensures
        r.is_ok() <==> 1 <= depth <= DIGEST_NIBBLES,
        r matches Err(e) ==> e == (MineError::InvalidDepth { depth }),
{
    if depth == 0 || depth > DIGEST_NIBBLES {
        Err(MineError::InvalidDepth { depth })
    } else {
        Ok(())
    }
}

fn same_bytes<const N: usize>(a: &[u8; N], b: &[u8; N]) -> (r: bool)
    ensures
        r == (a@ == b@),
{
    let mut i: usize = 0;
    while i < N
        invariant
            i <= N,
            a@.len() == N,
            b@.len() == N,
            forall|j: int| 0 <= j < i ==> #[trigger] a@[j] == b@[j],
        decreases N - i,
    {
        if a[i] != b[i] {
            return false;
        }
        i = i + 1;
    }
    assert(a@ =~= b@);
    true
}

/// `item` may follow branch `b` as its next level.
pub open spec fn fits_next_level(
    kind: CandidateKind,
    b: Seq<MinedItem>,
    cap: int,
    policy: PrefixPolicy,
    item: MinedItem,
) -> bool {
    &&& is_candidate(kind, item.counter, item)
    &&& prefix_matches(item.digest@, level_target(b, b.len() as int, policy), level_nibbles(b.len() as int, cap))
    &&& (b.len() > 0 ==> b[b.len() - 1].counter < item.counter)
}

/// Appends `item` to the branch when it may stand as the next level (a
/// candidate of `kind` that meets the level's target, with a larger counter
/// than the level before), and says whether it did.
pub fn extend_branch(kind: &CandidateKind, b: &mut Vec<MinedItem>, cap: usize, policy: PrefixPolicy, item: MinedItem) -> (r: bool)
    requires
        1 <= cap <= DIGEST_NIBBLES,
        branch_wf(*kind, old(b)@, cap as int, policy),
    ensures
        r == fits_next_level(*kind, old(b)@, cap as int, policy, item),
        r ==> final(b)@ == old(b)@.push(item),
        !r ==> final(b)@ == old(b)@,
        branch_wf(*kind, final(b)@, cap as int, policy),
{
    let expected = derive_candidate(kind, item.counter);
    let same = same_bytes(&expected.address, &item.address) && same_bytes(&expected.word, &item.word)
        && same_bytes(&expected.digest, &item.digest);
    if !same {
        return false;
    }
    let task = level_task(b, cap, policy, 0);
    if !crate::nibble::matches(&item.digest, &task.target, task.required_nibbles) {
        return false;
    }
    let k = b.len();
    if k > 0 && b[k - 1].counter >= item.counter {
        return false;
    }
    let ghost old_b = b@;
    b.push(item);
    assert forall|j: int| 0 <= j < b@.len() implies {
        &&& is_candidate(*kind, (#[trigger] b@[j]).counter, b@[j])
        &&& prefix_matches(b@[j].digest@, level_target(b@, j, policy), level_nibbles(j, cap as int))
        &&& (j > 0 ==> b@[j - 1].counter < b@[j].counter)
    } by {
        if j < k {
            assert(b@[j] == old_b[j]);
        }
        if j > 0 {
            assert(b@[j - 1] == old_b[j - 1]);
            assert(b@[0] == old_b[0]);
        }
    }
    true
}

/// Mines `count` levels, level `k` (from 0) matching `min(k + 1, cap)` nibbles
/// of its target under `policy`, each level trying at most `attempts`
/// counters.
pub fn mine_branch(kind: &CandidateKind, count: usize, cap: usize, policy: PrefixPolicy, attempts: u64) -> (r:
    Result<Vec<MinedItem>, MineError>)
    ensures
        (cap == 0 || cap > DIGEST_NIBBLES) <==> r == Err::<Vec<MinedItem>, MineError>(
            MineError::InvalidDepth { depth: cap },
        ),
        match r {
            Ok(b) => {
                &&& b@.len() == count
                &&& branch_mined(*kind, b@, cap as int, policy, attempts)
                &&& branch_wf(*kind, b@, cap as int, policy)
            },
            Err(MineError::Exhausted { level }) => exists|b: Seq<MinedItem>|
                {
                    &&& b.len() == level < count
                    &&& branch_mined(*kind, b, cap as int, policy, attempts)
                    &&& branch_wf(*kind, b, cap as int, policy)
                    &&& no_hit_in(
                        *kind,
                        level_target(b, level as int, policy),
                        level_nibbles(level as int, cap as int),
                        level_base(b, level as int),
                        level_base(b, level as int) + level_budget(b, level as int, attempts),
                    )
                },
            Err(e) => e == MineError::InvalidDepth { depth: cap },
        },
{
    if let Err(e) = check_depth(cap) {
        return Err(e);
    }
    let mut b: Vec<MinedItem> = Vec::new();
    while b.len() < count
        invariant
            1 <= cap <= DIGEST_NIBBLES,
            b@.len() <= count,
            branch_mined(*kind, b@, cap as int, policy, attempts),
            branch_wf(*kind, b@, cap as int, policy),
        decreases count - b@.len(),
    {
        let task = level_task(&b, cap, policy, attempts);
        let k = b.len();
        match search(kind, &task) {
            SearchOutcome::Found(item) => {
                let ghost old_b = b@;
                b.push(item);
                assert forall|j: int| 0 <= j < b@.len() implies {
                    &&& level_target(b@, j, policy) == level_target(old_b, j, policy)
                    &&& level_base(b@, j) == level_base(old_b, j)
                    &&& level_budget(b@, j, attempts) == level_budget(old_b, j, attempts)
                } by {
                    if j < k {
                        assert(b@[j] == old_b[j]);
                    }
                    if j > 0 {
                        assert(b@[j - 1] == old_b[j - 1]);
                        assert(b@[0] == old_b[0]);
                    }
                }
                assert forall|j: int| 0 <= j < b@.len() implies is_first_hit(
                    *kind,
                    level_target(b@, j, policy),
                    level_nibbles(j, cap as int),
                    level_base(b@, j),
                    level_budget(b@, j, attempts),
                    SearchOutcome::Found(#[trigger] b@[j]),
                ) by {
                    if j < k {
                        assert(b@[j] == old_b[j]);
                    }
                }
                assert forall|j: int| 0 <= j < b@.len() implies {
                    &&& is_candidate(*kind, (#[trigger] b@[j]).counter, b@[j])
                    &&& prefix_matches(b@[j].digest@, level_target(b@, j, policy), level_nibbles(j, cap as int))
                    &&& (j > 0 ==> b@[j - 1].counter < b@[j].counter)
                } by {
                    if j < k {
                        assert(b@[j] == old_b[j]);
                    }
                    if j > 0 {
                        assert(b@[j - 1] == old_b[j - 1]);
                    }
                }
            },
            SearchOutcome::Exhausted => {
                return Err(MineError::Exhausted { level: k });
            },
        }
    }
    Ok(b)
}

/// Mines a storage branch of `depth` levels: holder addresses in the mapping
/// declared at `base_slot` whose storage-trie keys share `k` nibbles at level
/// `k` (from 1).
pub fn mine_deep_branch(depth: usize, base_slot: u64, policy: PrefixPolicy, attempts: u64) -> (r:
    Result<Vec<MinedItem>, MineError>)
    ensures
        (depth == 0 || depth > DIGEST_NIBBLES) <==> r == Err::<Vec<MinedItem>, MineError>(
            MineError::InvalidDepth { depth },
        ),
        match r {
            Ok(b) => {
                &&& b@.len() == depth
                &&& branch_mined(CandidateKind::StorageSlot { base_slot }, b@, depth as int, policy, attempts)
                &&& branch_wf(CandidateKind::StorageSlot { base_slot }, b@, depth as int, policy)
            },
            Err(MineError::Exhausted { level }) => exists|b: Seq<MinedItem>|
                {
                    &&& b.len() == level < depth
                    &&& branch_mined(CandidateKind::StorageSlot { base_slot }, b, depth as int, policy, attempts)
                    &&& branch_wf(CandidateKind::StorageSlot { base_slot }, b, depth as int, policy)
                    &&& no_hit_in(
                        CandidateKind::StorageSlot { base_slot },
                        level_target(b, level as int, policy),
                        level_nibbles(level as int, depth as int),
                        level_base(b, level as int),
                        level_base(b, level as int) + level_budget(b, level as int, attempts),
                    )
                },
            Err(e) => e == MineError::InvalidDepth { depth },
        },
{
    let kind = CandidateKind::StorageSlot { base_slot };
    mine_branch(&kind, depth, depth, policy, attempts)
}

/// The CREATE2 candidates of `deployer` for init code of digest `h`.
pub open spec fn create2_kind(deployer: [u8; 20], h: [u8; 32]) -> CandidateKind {
    CandidateKind::Create2 { deployer, init_code_hash: h }
}

/// Mines `num_contracts` CREATE2 salts for contracts with init code
/// `init_code` deployed by `deployer`, whose account-trie keys deepen level by
/// level up to `depth` nibbles.
pub fn mine_create2_accounts(
    deployer: &[u8; 20],
    init_code: &[u8],
    num_contracts: usize,
    depth: usize,
    policy: PrefixPolicy,
    attempts: u64,
) -> (r: Result<Vec<MinedItem>, MineError>)
    ensures
        (depth == 0 || depth > DIGEST_NIBBLES) <==> r == Err::<Vec<MinedItem>, MineError>(
            MineError::InvalidDepth { depth },
        ),
        match r {
            Ok(b) => exists|h: [u8; 32]|
                {
                    &&& h@ == keccak_of(init_code@)
                    &&& b@.len() == num_contracts
                    &&& #[trigger] branch_mined(create2_kind(*deployer, h), b@, depth as int, policy, attempts)
                    &&& branch_wf(create2_kind(*deployer, h), b@, depth as int, policy)
                },
            Err(MineError::Exhausted { level }) => exists|h: [u8; 32], b: Seq<MinedItem>|
                {
                    &&& h@ == keccak_of(init_code@)
                    &&& b.len() == level < num_contracts
                    &&& #[trigger] branch_mined(create2_kind(*deployer, h), b, depth as int, policy, attempts)
                    &&& branch_wf(create2_kind(*deployer, h), b, depth as int, policy)
                    &&& no_hit_in(
                        create2_kind(*deployer, h),
                        level_target(b, level as int, policy),
                        level_nibbles(level as int, depth as int),
                        level_base(b, level as int),
                        level_base(b, level as int) + level_budget(b, level as int, attempts),
                    )
                },
            Err(e) => e == MineError::InvalidDepth { depth },
        },
{
    let h = init_code_hash(init_code);
    let kind = CandidateKind::Create2 { deployer: *deployer, init_code_hash: h };
    assert(kind == create2_kind(*deployer, h));
    mine_branch(&kind, num_contracts, depth, policy, attempts)
}

/// Whether the trie keys `keys`, in level order, still form a branch of
/// `depth`: key `k` shares `level_nibbles(k, depth)` nibbles with the first.
/// An advisory check on a contract's storage layout; it mines nothing.
pub fn check_branch_depth(keys: &Vec<[u8; 32]>, depth: usize) -> (r: bool)
    requires
        depth <= DIGEST_NIBBLES,
    ensures
        r == (forall|k: int|
            0 <= k < keys@.len() ==> prefix_matches(
                (#[trigger] keys@[k])@,
                keys@[0]@,
                level_nibbles(k, depth as int),
            )),
{
    let mut k: usize = 0;
    while k < keys.len()
        invariant
            k <= keys@.len(),
            depth <= DIGEST_NIBBLES,
            forall|j: int|
                0 <= j < k ==> prefix_matches(
                    (#[trigger] keys@[j])@,
                    keys@[0]@,
                    level_nibbles(j, depth as int),
                ),
        decreases keys@.len() - k,
    {
        let n: usize = if k < depth {
            k + 1
        } else {
            depth
        };
        if !crate::nibble::matches(&keys[k], &keys[0], n) {
            return false;
        }
        k = k + 1;
    }
    true
}

/// In a well-formed branch, the digests of levels `i < j` share the
/// `level_nibbles(i, cap)` leading nibbles that the shallower level requires
/// (`i + 1` when the branch is no longer than `cap`), under either policy.
pub proof fn lemma_branch_levels_share_prefix(
    kind: CandidateKind,
    b: Seq<MinedItem>,
    cap: int,
    policy: PrefixPolicy,
    i: int,
    j: int,
)
    requires
        branch_wf(kind, b, cap, policy),
        0 <= i < j < b.len(),
    ensures
        prefix_matches(b[i].digest@, b[j].digest@, level_nibbles(i, cap)),
    decreases j - i,
{
    let n = level_nibbles(i, cap);
    assert(prefix_matches(b[j].digest@, level_target(b, j, policy), level_nibbles(j, cap)));
    lemma_prefix_shorten(b[j].digest@, level_target(b, j, policy), level_nibbles(j, cap), n);
    match policy {
        PrefixPolicy::Persistent => {
            lemma_prefix_symmetric(b[j].digest@, b[0].digest@, n);
            if i > 0 {
                assert(prefix_matches(b[i].digest@, b[0].digest@, n));
                lemma_prefix_transitive(b[i].digest@, b[0].digest@, b[j].digest@, n);
            }
        },
        PrefixPolicy::Reseed => {
            lemma_prefix_symmetric(b[j].digest@, b[j - 1].digest@, n);
            if i < j - 1 {
                lemma_branch_levels_share_prefix(kind, b, cap, policy, i, j - 1);
                lemma_prefix_transitive(b[i].digest@, b[j - 1].digest@, b[j].digest@, n);
            }
        },
    }
}

/// In a well-formed branch the counters, and so the candidates, of any two
/// levels differ.
pub proof fn lemma_branch_counters_distinct(
    kind: CandidateKind,
    b: Seq<MinedItem>,
    cap: int,
    policy: PrefixPolicy,
    i: int,
    j: int,
)
    requires
        branch_wf(kind, b, cap, policy),
        0 <= i < j < b.len(),
    ensures
        b[i].counter < b[j].counter,
    decreases j - i,
{
    assert(b[j - 1].counter < b[j].counter);
    if i < j - 1 {
        lemma_branch_counters_distinct(kind, b, cap, policy, i, j - 1);
    }
}

/// In a well-formed branch, the candidates of any two levels differ: the
/// holder addresses of a storage branch, the salts of a CREATE2 branch.
pub proof fn lemma_branch_candidates_distinct(
    kind: CandidateKind,
    b: Seq<MinedItem>,
    cap: int,
    policy: PrefixPolicy,
    i: int,
    j: int,
)
    requires
        branch_wf(kind, b, cap, policy),
        0 <= i < j < b.len(),
    ensures
        kind is StorageSlot ==> b[i].address@ != b[j].address@,
        kind is Create2 ==> b[i].word@ != b[j].word@,
{
    lemma_branch_counters_distinct(kind, b, cap, policy, i, j);
    assert(is_candidate(kind, b[i].counter, b[i]));
    assert(is_candidate(kind, b[j].counter, b[j]));
    match kind {
        CandidateKind::StorageSlot { .. } => {
            if b[i].address@ == b[j].address@ {
                lemma_address_of_injective(b[i].counter, b[j].counter);
            }
        },
        CandidateKind::Create2 { .. } => {
            if b[i].word@ == b[j].word@ {
                lemma_word_of_injective(b[i].counter, b[j].counter);
            }
        },
    }
}

} // verus!
