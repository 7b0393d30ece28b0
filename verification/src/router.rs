//! Deterministic routing of client identifiers to shard buckets.
//!
//! A client id is first hashed to a 64-bit value with FNV-1a over its
//! characters (a stable hash: the bucket depends on the id's text alone,
//! across calls and across processes), and the hash is then mapped to a
//! bucket index with the jump consistent hash recurrence, so that growing
//! the bucket count from `n` to `n + 1` can only move a key into the new
//! bucket `n`, never between old buckets.

use vstd::arithmetic::div_mod::{
    lemma_div_by_multiple, lemma_div_is_ordered, lemma_div_is_ordered_by_denominator,
    lemma_div_multiples_vanish_fancy, lemma_div_pos_is_pos,
};
use vstd::prelude::*;

verus! {

/// FNV-1a 64-bit offset basis.
pub const FNV_OFFSET: u64 = 0xcbf29ce484222325;

/// FNV-1a 64-bit prime.
pub const FNV_PRIME: u64 = 0x100000001b3;

/// One FNV-1a step: fold one character (as its code point) into the
/// accumulator.
pub open spec fn fnv1a_step(acc: u64, c: char) -> u64 {
    (acc ^ ((c as u32) as u64)).wrapping_mul(FNV_PRIME)
}

/// FNV-1a 64-bit hash of a sequence of characters.
pub open spec fn fnv1a_of(s: Seq<char>) -> u64
    decreases s.len(),
{
    if s.len() == 0 {
        FNV_OFFSET
    } else {
        fnv1a_step(fnv1a_of(s.drop_last()), s.last())
    }
}

/// Hashes a client id to a stable 64-bit value, FNV-1a over its characters.
pub fn hash_key(key: &str) -> (h: u64)
    ensures
        h == fnv1a_of(key@),
{
    let len: usize = key.unicode_len();
    let mut acc: u64 = FNV_OFFSET;
    let mut i: usize = 0;
    while i < len
        invariant
            i <= len,
            len == key@.len(),
            acc == fnv1a_of(key@.take(i as int)),
        decreases len - i,
    {
        let c = key.get_char(i);
        acc = (acc ^ ((c as u32) as u64)).wrapping_mul(FNV_PRIME);
        proof {
            assert(key@.take(i + 1).drop_last() =~= key@.take(i as int));
            assert(key@.take(i + 1).last() == key@[i as int]);
        }
        i = i + 1;
    }
    proof {
        assert(key@.take(len as int) =~= key@);
    }
    acc
}

/// Multiplier of the 64-bit linear congruential generator that drives the
/// jump consistent hash recurrence.
pub const JUMP_MULTIPLIER: u64 = 0x27bb2ee687b0b0fd;

/// One step of the key stream behind the jump consistent hash.
pub open spec fn jump_next_key(key: u64) -> u64 {
    key.wrapping_mul(JUMP_MULTIPLIER).wrapping_add(1)
}

/// The candidate next jump destination after landing on bucket `b`:
/// `(b + 1) * 2^31` divided by a pseudo-random value in `1 ..= 2^31`
/// drawn from the top 31 bits of `key`. It is always at least `b + 1`
/// (see `lemma_jump_next_j_ge`).
pub open spec fn jump_next_j(b: int, key: u64) -> int {
    ((b + 1) * 0x80000000) / ((key as int) / 0x200000000 + 1)
}

/// The next jump destination, clamped into `j + 1 ..= n` so that the
/// recurrence visibly terminates. The clamp never changes the result:
/// the candidate is at least `j + 1` already, and any candidate past `n`
/// ends the search just as `n` itself does.
pub open spec fn jump_clamped_j(j: int, key: u64, n: int) -> int {
    let raw = jump_next_j(j, key);
    let capped = if raw > n {
        n
    } else {
        raw
    };
    if capped < j + 1 {
        j + 1
    } else {
        capped
    }
}

/// The jump consistent hash recurrence: starting from last landing `b` and
/// candidate `j`, keep jumping while the candidate is still a valid bucket;
/// the result is the last landing below `n`.
pub open spec fn jump_from(key: u64, n: int, b: int, j: int) -> int
    decreases n - j,
{
    if j >= n {
        b
    } else {
        let key2 = jump_next_key(key);
        jump_from(key2, n, j, jump_clamped_j(j, key2, n))
    }
}

/// The bucket that the jump consistent hash assigns to `hash` among
/// `buckets` buckets.
pub open spec fn spec_jump_hash(hash: u64, buckets: int) -> int {
    jump_from(hash, buckets, -1, 0)
}

/// The bucket that a client id is routed to: FNV-1a hash, then jump
/// consistent hash. A pure function of the id's characters and the bucket
/// count, which is what makes routing deterministic.
pub open spec fn spec_route(key: Seq<char>, buckets: int) -> int {
    spec_jump_hash(fnv1a_of(key), buckets)
}

/// The jump candidate never falls back: from bucket `b` it always proposes
/// at least `b + 1`.
proof fn lemma_jump_next_j_ge(b: int, key: u64)
    requires
        0 <= b,
    ensures
        jump_next_j(b, key) >= b + 1,
{
    let d = (key as int) / 0x200000000 + 1;
    lemma_div_pos_is_pos(key as int, 0x200000000);
    lemma_div_is_ordered(key as int, 0xffffffffffffffff, 0x200000000);
    lemma_div_multiples_vanish_fancy(0x7fffffff, 0x1ffffffff, 0x200000000);
    assert(0x200000000int * 0x7fffffff + 0x1ffffffff == 0xffffffffffffffff) by (nonlinear_arith);
    assert(1 <= d <= 0x80000000);
    assert((b + 1) * 0x80000000 >= 0) by (nonlinear_arith)
        requires
            0 <= b,
    ;
    lemma_div_is_ordered_by_denominator((b + 1) * 0x80000000, d, 0x80000000);
    lemma_div_by_multiple(b + 1, 0x80000000);
}

/// The recurrence always lands on a valid bucket.
proof fn lemma_jump_from_range(key: u64, n: int, b: int, j: int)
    requires
        0 <= j,
        b < n,
        b >= 0 || j < n,
    ensures
        0 <= jump_from(key, n, b, j) < n,
    decreases n - j,
{
    if j >= n {
    } else {
        let key2 = jump_next_key(key);
        lemma_jump_from_range(key2, n, j, jump_clamped_j(j, key2, n));
    }
}

/// Routing always yields a bucket index below the bucket count.
pub proof fn lemma_route_in_range(key: Seq<char>, n: int)
    requires
        1 <= n,
    ensures
        0 <= spec_route(key, n) < n,
{
    lemma_jump_from_range(fnv1a_of(key), n, -1, 0);
}

/// Growing the bucket count by one either leaves the landing unchanged or
/// moves it to the new bucket `n`: the recurrences agree step for step
/// until the smaller count ends the search.
#[verifier::rlimit(50)]
proof fn lemma_jump_from_grow(key: u64, n: int, b: int, j: int)
    requires
        0 <= j <= n + 1,
    ensures
        jump_from(key, n + 1, b, j) == jump_from(key, n, b, j) || jump_from(key, n + 1, b, j)
            == n,
    decreases n + 1 - j,
{
    if j >= n + 1 {
        // both searches are over
        assert(jump_from(key, n + 1, b, j) == b);
        assert(jump_from(key, n, b, j) == b);
    } else if j == n {
        // the search among `n` buckets is over at `b`; the search among
        // `n + 1` buckets takes exactly one more jump, onto bucket `n`
        let key2 = jump_next_key(key);
        let j2 = jump_clamped_j(j, key2, n + 1);
        lemma_jump_next_j_ge(j, key2);
        assert(j2 == n + 1);
        assert(jump_from(key, n + 1, b, j) == jump_from(key2, n + 1, j, j2));
        assert(jump_from(key2, n + 1, n, n + 1) == n);
        assert(jump_from(key, n, b, j) == b);
    } else {
        let key2 = jump_next_key(key);
        let raw = jump_next_j(j, key2);
        let jn = jump_clamped_j(j, key2, n);
        let jn1 = jump_clamped_j(j, key2, n + 1);
        assert(jump_from(key, n, b, j) == jump_from(key2, n, j, jn));
        assert(jump_from(key, n + 1, b, j) == jump_from(key2, n + 1, j, jn1));
        if raw > n {
            // both searches end here: among `n` buckets as among `n + 1`,
            // the landing is `j`
            assert(jn == n);
            assert(jn1 == n + 1);
            assert(jump_from(key2, n, j, n) == j);
            assert(jump_from(key2, n + 1, j, n + 1) == j);
        } else {
            assert(jn == jn1);
            lemma_jump_from_grow(key2, n, j, jn);
        }
    }
}

/// Minimal disruption of the jump consistent hash: when the bucket count
/// grows from `n` to `n + 1`, a hash either keeps its bucket or moves to
/// the new bucket `n`; no key ever moves between two old buckets.
pub proof fn lemma_jump_minimal_disruption(hash: u64, n: int)
    requires
        1 <= n,
    ensures
        spec_jump_hash(hash, n + 1) == spec_jump_hash(hash, n) || spec_jump_hash(hash, n + 1)
            == n,
{
    lemma_jump_from_grow(hash, n, -1, 0);
}

/// Minimal disruption lifted to client ids: growing the bucket count from
/// `n` to `n + 1` either keeps a key's bucket or moves it to the new
/// bucket `n`.
pub proof fn lemma_route_minimal_disruption(key: Seq<char>, n: int)
    requires
        1 <= n,
    ensures
        spec_route(key, n + 1) == spec_route(key, n) || spec_route(key, n + 1) == n,
{
    lemma_jump_minimal_disruption(fnv1a_of(key), n);
}

/// Maps a 64-bit hash to a bucket in `0 .. buckets` with the jump
/// consistent hash recurrence. Deterministic: the result is a pure
/// function of `hash` and `buckets`.
pub fn jump_hash(hash: u64, buckets: i64) -> (bucket: i64)
    requires
        1 <= buckets,
    ensures
        bucket == spec_jump_hash(hash, buckets as int),
        0 <= bucket < buckets,
{
    let mut key: u64 = hash;
    let mut b: i64 = -1;
    let mut j: i64 = 0;
    while j < buckets
        invariant
            1 <= buckets,
            0 <= j,
            b < buckets,
            b >= 0 || j < buckets,
            jump_from(key, buckets as int, b as int, j as int) == spec_jump_hash(
                hash,
                buckets as int,
            ),
        decreases buckets - j,
    {
        b = j;
        key = key.wrapping_mul(JUMP_MULTIPLIER).wrapping_add(1);
        let den: u128 = (key / 0x200000000) as u128 + 1;
        let num: u128 = (b as u128 + 1) * 0x80000000;
        let q: u128 = num / den;
        let capped: i64 = if q > (buckets as u128) {
            buckets
        } else {
            q as i64
        };
        j = if capped < b + 1 {
            b + 1
        } else {
            capped
        };
        proof {
            assert(q == jump_next_j(b as int, key));
            assert(j == jump_clamped_j(b as int, key, buckets as int));
        }
    }
    b
}

} // verus!
