use deep_branch_miner::address::parse_address;
use deep_branch_miner::branch::{
    check_branch_depth, check_depth, extend_branch, level_task, mine_branch, mine_create2_accounts, mine_deep_branch, PrefixPolicy,
};
use deep_branch_miner::candidate::{
    address_from_counter, create2_address, create2_address_from_hash, derive_candidate, init_code_hash,
    storage_key, word_from_counter, CandidateKind, MinedItem,
};
use deep_branch_miner::cuda_miner::{accept_device_result, cuda_available, mine_with_cuda};
use deep_branch_miner::error::MineError;
use deep_branch_miner::nibble::nibble_at;
use deep_branch_miner::search::{search, search_stride, SearchOutcome, SearchTask};
use tiny_keccak::Hasher;

fn keccak(data: &[u8]) -> [u8; 32] {
    let mut h = tiny_keccak::Keccak::v256();
    let mut out = [0u8; 32];
    h.update(data);
    h.finalize(&mut out);
    out
}

fn nibble_match(d: &[u8; 32], p: &[u8; 32], n: usize) -> bool {
    deep_branch_miner::nibble::matches(d, p, n)
}

fn hex32(s: &str) -> [u8; 32] {
    let v = hex::decode(s).unwrap();
    let mut a = [0u8; 32];
    a.copy_from_slice(&v);
    a
}

fn shares(a: &[u8; 32], b: &[u8; 32], n: usize) -> bool {
    (0..n).all(|i| nibble_at(a, i) == nibble_at(b, i))
}

#[test]
fn nibbles_are_read_high_half_first() {
    let mut d = [0u8; 32];
    d[0] = 0xab;
    d[31] = 0xcd;
    assert_eq!(nibble_at(&d, 0), 0xa);
    assert_eq!(nibble_at(&d, 1), 0xb);
    assert_eq!(nibble_at(&d, 2), 0);
    assert_eq!(nibble_at(&d, 62), 0xc);
    assert_eq!(nibble_at(&d, 63), 0xd);
}

#[test]
fn zero_nibbles_always_match() {
    let a = [0xffu8; 32];
    let b = [0x00u8; 32];
    assert!(nibble_match(&a, &b, 0));
    assert!(!nibble_match(&a, &b, 1));
}

#[test]
fn match_stops_at_odd_and_even_boundaries() {
    let p = [0x12u8; 32];
    let mut d = p;
    d[1] = 0x13; // nibble 3 differs
    assert!(nibble_match(&d, &p, 1));
    assert!(nibble_match(&d, &p, 2));
    assert!(nibble_match(&d, &p, 3));
    assert!(!nibble_match(&d, &p, 4));
    let mut e = p;
    e[1] = 0x22; // nibble 2 differs
    assert!(nibble_match(&e, &p, 2));
    assert!(!nibble_match(&e, &p, 3));
}

#[test]
fn match_on_the_last_nibbles() {
    let p = [0x5au8; 32];
    let mut d = p;
    d[31] = 0x5b;
    assert!(nibble_match(&d, &p, 63));
    assert!(!nibble_match(&d, &p, 64));
    assert!(nibble_match(&p, &p, 64));
}

#[test]
fn counter_bytes_are_big_endian() {
    let a = address_from_counter(0x0102030405060708);
    let mut expected = [0u8; 20];
    expected[12..].copy_from_slice(&[1, 2, 3, 4, 5, 6, 7, 8]);
    assert_eq!(a, expected);
    let w = word_from_counter(0x0a0b);
    let mut ew = [0u8; 32];
    ew[30] = 0x0a;
    ew[31] = 0x0b;
    assert_eq!(w, ew);
}

#[test]
fn storage_key_of_zero_holder_at_slot_zero() {
    // the digest of 64 zero bytes
    let k = storage_key(&[0u8; 20], 0);
    assert_eq!(k, hex32("ad3228b676f7d3cd4284a5443f17f1962b36e491b30a40b2405849e597ba5fb5"));
}

#[test]
fn storage_key_follows_the_mapping_layout() {
    let addr = address_from_counter(7);
    let mut pre = vec![0u8; 12];
    pre.extend_from_slice(&addr);
    pre.extend_from_slice(&word_from_counter(3));
    assert_eq!(storage_key(&addr, 3), keccak(&pre));
}

#[test]
fn create2_address_of_zero_inputs() {
    let mut pre = vec![0xffu8];
    pre.extend_from_slice(&[0u8; 20]);
    pre.extend_from_slice(&[0u8; 32]);
    pre.extend_from_slice(&keccak(&[]));
    assert_eq!(pre.len(), 85);
    let h = keccak(&pre);
    let a = create2_address(&[0u8; 20], &[0u8; 32], &[]);
    assert_eq!(&a[..], &h[12..]);
    assert_ne!(a, [0u8; 20]);
}

#[test]
fn init_code_digest() {
    assert_eq!(
        init_code_hash(&[]),
        hex32("c5d2460186f7233c927e7db2dcc703c0e500b653ca82273b7bfad8045d85a470")
    );
}

#[test]
fn create2_address_known_vector() {
    // deployer zero, salt zero, init code a single zero byte
    let a = create2_address(&[0u8; 20], &[0u8; 32], &[0u8]);
    assert_eq!(hex::encode(a), "4d1a2e2bb4f88f0250f26ffff098b0b30b26bf38");
    let b = create2_address_from_hash(&[0u8; 20], &[0u8; 32], &keccak(&[0u8]));
    assert_eq!(a, b);
}

#[test]
fn derived_candidates_hash_their_trie_keys() {
    let s = derive_candidate(&CandidateKind::StorageSlot { base_slot: 5 }, 9);
    assert_eq!(s.counter, 9);
    assert_eq!(s.address, address_from_counter(9));
    assert_eq!(s.word, storage_key(&s.address, 5));
    assert_eq!(s.digest, keccak(&s.word));
    let deployer = [0x11u8; 20];
    let code_hash = keccak(&[1, 2, 3]);
    let c = derive_candidate(&CandidateKind::Create2 { deployer, init_code_hash: code_hash }, 4);
    assert_eq!(c.word, word_from_counter(4));
    assert_eq!(c.address, create2_address(&deployer, &c.word, &[1, 2, 3]));
    assert_eq!(c.digest, keccak(&c.address));
}

fn first_match(kind: &CandidateKind, task: &SearchTask) -> Option<MinedItem> {
    (task.base..task.base + task.max_attempts)
        .map(|c| derive_candidate(kind, c))
        .find(|i| nibble_match(&i.digest, &task.target, task.required_nibbles))
}

#[test]
fn search_returns_the_first_valid_match() {
    let kind = CandidateKind::StorageSlot { base_slot: 0 };
    let target = [0u8; 32];
    let task = SearchTask { target, required_nibbles: 2, base: 10, max_attempts: 5000 };
    match search(&kind, &task) {
        SearchOutcome::Found(item) => {
            assert!(nibble_match(&item.digest, &target, 2));
            assert!(item.counter >= 10 && item.counter < 5010);
            assert_eq!(item, derive_candidate(&kind, item.counter));
            assert_eq!(Some(item), first_match(&kind, &task));
        },
        SearchOutcome::Exhausted => panic!("no match in 5000 attempts"),
    }
}

#[test]
fn search_with_budget_one_is_exhausted() {
    let kind = CandidateKind::StorageSlot { base_slot: 0 };
    let first = derive_candidate(&kind, 0);
    let mut target = first.digest;
    for b in target.iter_mut() {
        *b ^= 0xff;
    }
    let task = SearchTask { target, required_nibbles: 64, base: 0, max_attempts: 1 };
    assert_eq!(search(&kind, &task), SearchOutcome::Exhausted);
}

#[test]
fn search_with_empty_budget_is_exhausted() {
    let kind = CandidateKind::StorageSlot { base_slot: 0 };
    let task = SearchTask { target: [0u8; 32], required_nibbles: 0, base: 3, max_attempts: 0 };
    assert_eq!(search(&kind, &task), SearchOutcome::Exhausted);
}

#[test]
fn workers_split_the_range_by_stride() {
    let kind = CandidateKind::StorageSlot { base_slot: 1 };
    let task = SearchTask { target: [0u8; 32], required_nibbles: 0, base: 100, max_attempts: 20 };
    for w in 0..8u64 {
        match search_stride(&kind, &task, w, 8, 0, 10) {
            SearchOutcome::Found(item) => assert_eq!(item.counter, 100 + w),
            SearchOutcome::Exhausted => panic!("every counter matches zero nibbles"),
        }
        match search_stride(&kind, &task, w, 8, 2, 10) {
            SearchOutcome::Found(item) => {
                assert!(w < 4);
                assert_eq!(item.counter, 116 + w);
            },
            SearchOutcome::Exhausted => assert!(w >= 4),
        }
    }
}

#[test]
fn stride_search_finds_valid_matches() {
    let kind = CandidateKind::StorageSlot { base_slot: 0 };
    let target = [0x30u8; 32];
    let task = SearchTask { target, required_nibbles: 1, base: 0, max_attempts: 4000 };
    let mut found = 0;
    for w in 0..8u64 {
        if let SearchOutcome::Found(item) = search_stride(&kind, &task, w, 8, 0, 500) {
            assert!(nibble_match(&item.digest, &target, 1));
            assert_eq!(item.counter % 8, w);
            found += 1;
        }
    }
    assert!(found > 0);
}

fn eight_worker_search(kind: &CandidateKind, task: &SearchTask) -> Option<MinedItem> {
    let steps = task.max_attempts / 8 + 1;
    let mut best: Option<MinedItem> = None;
    for w in 0..8u64 {
        if let SearchOutcome::Found(item) = search_stride(kind, task, w, 8, 0, steps) {
            if best.map_or(true, |b| item.counter < b.counter) {
                best = Some(item);
            }
        }
    }
    best
}

#[test]
fn depth_three_branch_with_eight_workers() {
    let kind = CandidateKind::StorageSlot { base_slot: 0 };
    let mut branch: Vec<MinedItem> = Vec::new();
    for _ in 0..3 {
        let task = level_task(&branch, 3, PrefixPolicy::Persistent, 1_000_000);
        let item = eight_worker_search(&kind, &task).expect("level mined");
        branch.push(item);
    }
    assert!(nibble_match(&branch[0].digest, &[0u8; 32], 1));
    assert!(shares(&branch[1].digest, &branch[0].digest, 2));
    assert!(shares(&branch[2].digest, &branch[0].digest, 3));
    assert_ne!(branch[0].address, branch[1].address);
    assert_ne!(branch[0].address, branch[2].address);
    assert_ne!(branch[1].address, branch[2].address);
}

#[test]
fn deep_branch_of_depth_three() {
    let b = mine_deep_branch(3, 0, PrefixPolicy::Persistent, 1_000_000).unwrap();
    assert_eq!(b.len(), 3);
    assert!(nibble_match(&b[0].digest, &[0u8; 32], 1));
    assert!(shares(&b[1].digest, &b[0].digest, 2));
    assert!(shares(&b[2].digest, &b[0].digest, 3));
    assert!(shares(&b[1].digest, &b[2].digest, 2));
    assert!(b[0].counter < b[1].counter && b[1].counter < b[2].counter);
    assert_ne!(b[0].address, b[1].address);
    assert_ne!(b[1].address, b[2].address);
    assert_ne!(b[0].address, b[2].address);
}

#[test]
fn reseeded_branch_follows_the_previous_level() {
    let b = mine_deep_branch(3, 2, PrefixPolicy::Reseed, 1_000_000).unwrap();
    assert!(shares(&b[1].digest, &b[0].digest, 2));
    assert!(shares(&b[2].digest, &b[1].digest, 3));
    assert!(shares(&b[2].digest, &b[0].digest, 2));
}

#[test]
fn branch_depth_out_of_range() {
    assert_eq!(
        mine_deep_branch(0, 0, PrefixPolicy::Persistent, 10),
        Err(MineError::InvalidDepth { depth: 0 })
    );
    assert_eq!(
        mine_deep_branch(65, 0, PrefixPolicy::Persistent, 10),
        Err(MineError::InvalidDepth { depth: 65 })
    );
}

#[test]
fn branch_level_exhausted() {
    assert_eq!(
        mine_deep_branch(2, 0, PrefixPolicy::Persistent, 0),
        Err(MineError::Exhausted { level: 0 })
    );
    let kind = CandidateKind::StorageSlot { base_slot: 0 };
    assert_eq!(
        mine_branch(&kind, 2, 64, PrefixPolicy::Persistent, 0),
        Err(MineError::Exhausted { level: 0 })
    );
}

#[test]
fn level_tasks_deepen_and_move_on() {
    let empty: Vec<MinedItem> = Vec::new();
    let t0 = level_task(&empty, 4, PrefixPolicy::Persistent, 50);
    assert_eq!(t0, SearchTask { target: [0u8; 32], required_nibbles: 1, base: 0, max_attempts: 50 });
    let kind = CandidateKind::StorageSlot { base_slot: 0 };
    let a = derive_candidate(&kind, 3);
    let b = derive_candidate(&kind, 9);
    let t2 = level_task(&vec![a, b], 4, PrefixPolicy::Persistent, 50);
    assert_eq!(t2.target, a.digest);
    assert_eq!(t2.required_nibbles, 3);
    assert_eq!(t2.base, 10);
    let r2 = level_task(&vec![a, b], 2, PrefixPolicy::Reseed, u64::MAX);
    assert_eq!(r2.target, b.digest);
    assert_eq!(r2.required_nibbles, 2);
    assert_eq!(r2.max_attempts, u64::MAX - 10);
}

#[test]
fn create2_accounts_deepen() {
    let deployer = [0x22u8; 20];
    let code = [0x60u8, 0x80, 0x60, 0x40, 0x52];
    let accounts =
        mine_create2_accounts(&deployer, &code, 3, 2, PrefixPolicy::Persistent, 1_000_000).unwrap();
    assert_eq!(accounts.len(), 3);
    for a in &accounts {
        assert_eq!(a.address, create2_address(&deployer, &a.word, &code));
        assert_eq!(a.digest, keccak(&a.address));
    }
    assert!(shares(&accounts[1].digest, &accounts[0].digest, 2));
    assert!(shares(&accounts[2].digest, &accounts[0].digest, 2));
    assert_ne!(accounts[0].word, accounts[1].word);
    assert_eq!(
        mine_create2_accounts(&deployer, &code, 3, 0, PrefixPolicy::Persistent, 10),
        Err(MineError::InvalidDepth { depth: 0 })
    );
}

#[test]
fn address_of_39_digits_is_rejected() {
    let s = "000000000000000000000000000000000000000";
    assert_eq!(s.len(), 39);
    assert_eq!(parse_address(s), Err(MineError::AddressLength { len: 39 }));
    assert_eq!(parse_address(&format!("0x{s}")), Err(MineError::AddressLength { len: 39 }));
}

#[test]
fn address_parses_with_and_without_prefix() {
    let s = "00112233445566778899aabbccddeeff0011AaBb";
    let a = parse_address(s).unwrap();
    assert_eq!(a[0], 0x00);
    assert_eq!(a[1], 0x11);
    assert_eq!(a[19], 0xbb);
    assert_eq!(parse_address(&format!("0x{s}")), Ok(a));
}

#[test]
fn address_with_non_hex_is_rejected() {
    let s = "00112233445566778899aabbccddeeff0011aabg";
    assert_eq!(parse_address(s), Err(MineError::AddressNotHex));
    assert_eq!(parse_address("0x"), Err(MineError::AddressLength { len: 0 }));
}

#[test]
fn gpu_is_unavailable_without_a_kernel() {
    assert!(!cuda_available());
    assert_eq!(mine_with_cuda(&[0u8; 32], 1, 0), Err(MineError::GpuUnavailable));
}

#[test]
fn device_results_are_checked() {
    let kind = CandidateKind::StorageSlot { base_slot: 4 };
    let item = derive_candidate(&kind, 12);
    let target = item.digest;
    assert_eq!(
        accept_device_result(&target, 64, 4, true, &item.address, &item.word),
        Some((item.address, item.word))
    );
    assert_eq!(accept_device_result(&target, 64, 4, false, &item.address, &item.word), None);
    assert_eq!(accept_device_result(&target, 64, 5, true, &item.address, &item.word), None);
    let mut other = target;
    other[0] ^= 0x10;
    assert_eq!(accept_device_result(&other, 1, 4, true, &item.address, &item.word), None);
    assert_eq!(
        accept_device_result(&other, 0, 4, true, &item.address, &item.word),
        Some((item.address, item.word))
    );
}

#[test]
fn depth_bounds() {
    assert_eq!(check_depth(1), Ok(()));
    assert_eq!(check_depth(64), Ok(()));
    assert_eq!(check_depth(0), Err(MineError::InvalidDepth { depth: 0 }));
    assert_eq!(check_depth(65), Err(MineError::InvalidDepth { depth: 65 }));
}

#[test]
fn branch_accepts_only_fitting_levels() {
    let kind = CandidateKind::StorageSlot { base_slot: 0 };
    let mined = mine_deep_branch(2, 0, PrefixPolicy::Persistent, 1_000_000).unwrap();
    let mut b: Vec<MinedItem> = Vec::new();
    // a forged digest is refused
    let mut forged = mined[0];
    forged.digest[5] ^= 1;
    assert!(!extend_branch(&kind, &mut b, 2, PrefixPolicy::Persistent, forged));
    assert!(b.is_empty());
    assert!(extend_branch(&kind, &mut b, 2, PrefixPolicy::Persistent, mined[0]));
    // the same counter again is refused
    assert!(!extend_branch(&kind, &mut b, 2, PrefixPolicy::Persistent, mined[0]));
    assert!(extend_branch(&kind, &mut b, 2, PrefixPolicy::Persistent, mined[1]));
    assert_eq!(b, mined);
}

#[test]
fn storage_layout_depth_check() {
    let b = mine_deep_branch(3, 0, PrefixPolicy::Persistent, 1_000_000).unwrap();
    let keys: Vec<[u8; 32]> = b.iter().map(|i| i.digest).collect();
    assert!(check_branch_depth(&keys, 3));
    assert!(check_branch_depth(&Vec::new(), 3));
    let mut broken = keys.clone();
    broken[2][1] ^= 0x01; // nibble 3 differs
    assert!(check_branch_depth(&broken, 3));
    broken[2][1] ^= 0x11; // nibble 2 differs as well
    assert!(!check_branch_depth(&broken, 3));
    assert!(check_branch_depth(&broken, 2));
}

#[test]
fn address_round_trips_through_hex() {
    let zero = format!("0x{}", "0".repeat(40));
    assert_eq!(parse_address(&zero), Ok([0u8; 20]));
    let mut expected = [0u8; 20];
    expected[..4].copy_from_slice(&[0xde, 0xad, 0xbe, 0xef]);
    assert_eq!(parse_address("deadbeef00000000000000000000000000000000"), Ok(expected));
    assert_eq!(parse_address("0xDEADBEEF00000000000000000000000000000000"), Ok(expected));
    let a: [u8; 20] = core::array::from_fn(|i| (i as u8).wrapping_mul(37).wrapping_add(5));
    assert_eq!(parse_address(&hex::encode(a)), Ok(a));
    assert_eq!(parse_address(&format!("0x{}", hex::encode(a))), Ok(a));
}
