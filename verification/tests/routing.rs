use shard_registry::router::{hash_key, jump_hash};

#[test]
fn hash_key_known_vectors() {
    // FNV-1a 64-bit test vectors (ASCII, so chars and bytes agree)
    assert_eq!(hash_key(""), 0xcbf29ce484222325);
    assert_eq!(hash_key("a"), 0xaf63dc4c8601ec8c);
    assert_eq!(hash_key("foobar"), 0x85944171f73967e8);
}

#[test]
fn hash_key_repeatable() {
    let first = hash_key("client123");
    let second = hash_key("client123");
    assert_eq!(first, second);
    assert_ne!(hash_key("client123"), hash_key("client124"));
}

#[test]
fn jump_hash_single_bucket() {
    for hash in [0u64, 1, 42, 123456789, u64::MAX] {
        assert_eq!(jump_hash(hash, 1), 0);
    }
}

#[test]
fn jump_hash_zero_key_lands_in_bucket_zero() {
    // traceable by hand: from hash 0 the key stream starts at 1, so the
    // first candidate destination is already 2^31, past any count here
    for buckets in [1i64, 2, 7, 1000] {
        assert_eq!(jump_hash(0, buckets), 0);
    }
}

#[test]
fn jump_hash_in_range() {
    for i in 0..200u64 {
        let hash = hash_key(&format!("key-{}", i));
        for buckets in [1i64, 2, 3, 7, 64, 1024] {
            let bucket = jump_hash(hash, buckets);
            assert!(0 <= bucket && bucket < buckets);
        }
    }
}

#[test]
fn jump_hash_deterministic() {
    for i in 0..50u64 {
        let hash = hash_key(&format!("key-{}", i));
        assert_eq!(jump_hash(hash, 16), jump_hash(hash, 16));
    }
}

#[test]
fn jump_hash_moves_keys_only_to_new_bucket() {
    // growing from n to n + 1 buckets: every key stays put or lands in
    // the new bucket, never in another old one
    let n: i64 = 10;
    for i in 0..1000u64 {
        let hash = hash_key(&format!("key-{}", i));
        let before = jump_hash(hash, n);
        let after = jump_hash(hash, n + 1);
        assert!(after == before || after == n);
    }
}

#[test]
fn jump_hash_minimal_disruption_fraction() {
    // about 1/(n+1) of keys should move; allow twice that
    let n: i64 = 10;
    let total: u64 = 1000;
    let mut moved: u64 = 0;
    for i in 0..total {
        let hash = hash_key(&format!("key-{}", i));
        if jump_hash(hash, n + 1) != jump_hash(hash, n) {
            moved += 1;
        }
    }
    assert!(moved * (n as u64 + 1) <= 2 * total);
    assert!(moved >= 1);
}
