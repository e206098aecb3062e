//! The content-addressed audio cache: the same model, voice and text give the
//! same key, so the call can be skipped.
use vstd::prelude::*;
use crate::codec::{lower_hex, sha256, sha256_digest, to_lower_hex};
use crate::textseq::{chars_to_string, lowercase, push_all, push_str, str_to_chars, to_lowercase_chars, trim, trim_chars};

verus! {

/// The audio cache (its rows live in the project database).
pub struct AudioCache;

/// The text a cache key digests: `v1:model:voice:` and the trimmed, lower-cased text.
pub open spec fn cache_key_text(model: Seq<char>, voice: Seq<char>, text: Seq<char>) -> Seq<char> {
    "v1:"@ + model + ":"@ + voice + ":"@ + lowercase(trim(text))
}

/// The total of a list of entry sizes.
pub open spec fn total_bytes(sizes: Seq<u64>) -> nat
    decreases sizes.len(),
{
    if sizes.len() == 0 {
        0
    } else {
        total_bytes(sizes.drop_last()) + sizes.last() as nat
    }
}

/// The first `k`, counting up from `k`, at which the first `k` entries free at
/// least `target` bytes, or the number of entries where none does.
pub open spec fn first_reaching(sizes: Seq<u64>, target: nat, k: nat) -> nat
    decreases sizes.len() - k,
{
    if k >= sizes.len() || total_bytes(sizes.take(k as int)) >= target {
        k
    } else {
        first_reaching(sizes, target, k + 1)
    }
}

/// How many entries, least recently used first, eviction removes to bring a cache
/// of `current` bytes within `max_bytes`.
pub open spec fn eviction_count(sizes: Seq<u64>, current: nat, max_bytes: nat) -> nat {
    if current <= max_bytes {
        0
    } else {
        first_reaching(sizes, (current - max_bytes) as nat, 0)
    }
}

proof fn lemma_total_take_step(sizes: Seq<u64>, k: int)
    requires
        0 <= k < sizes.len(),
    ensures
        total_bytes(sizes.take(k + 1)) == total_bytes(sizes.take(k)) + sizes[k],
{
    assert(sizes.take(k + 1).drop_last() =~= sizes.take(k));
}

proof fn lemma_first_reaching_props(sizes: Seq<u64>, target: nat, k: nat)
    requires
        k <= sizes.len(),
    ensures
        k <= first_reaching(sizes, target, k) <= sizes.len(),
        first_reaching(sizes, target, k) == sizes.len() || total_bytes(
            sizes.take(first_reaching(sizes, target, k) as int),
        ) >= target,
        forall|j: nat|
            k <= j < first_reaching(sizes, target, k) ==> total_bytes(#[trigger] sizes.take(j as int))
                < target,
    decreases sizes.len() - k,
{
    if k < sizes.len() && total_bytes(sizes.take(k as int)) < target {
        lemma_first_reaching_props(sizes, target, k + 1);
    }
}

/// Eviction frees enough: where the listed entries make up the whole cache, what
/// stays after evicting `eviction_count` entries is within the limit.
pub proof fn lemma_eviction_within_limit(sizes: Seq<u64>, current: nat, max_bytes: nat)
    requires
        total_bytes(sizes) == current,
    ensures
        current - total_bytes(sizes.take(eviction_count(sizes, current, max_bytes) as int))
            <= max_bytes,
{
    if current > max_bytes {
        lemma_first_reaching_props(sizes, (current - max_bytes) as nat, 0);
        let k = eviction_count(sizes, current, max_bytes);
        if k == sizes.len() {
            assert(sizes.take(k as int) =~= sizes);
        }
    }
}

/// Eviction removes no more than it must: evicting one entry fewer would leave the
/// cache over its limit.
pub proof fn lemma_eviction_minimal(sizes: Seq<u64>, current: nat, max_bytes: nat)
    requires
        eviction_count(sizes, current, max_bytes) > 0,
    ensures
        current - total_bytes(sizes.take(eviction_count(sizes, current, max_bytes) - 1)) > max_bytes,
{
    lemma_first_reaching_props(sizes, (current - max_bytes) as nat, 0);
    let k = eviction_count(sizes, current, max_bytes);
    assert(total_bytes(sizes.take(k - 1)) < (current - max_bytes) as nat);
}

impl AudioCache {
    /// How many of the entries, listed least recently used first by their sizes,
    /// to evict so that a cache of `current_bytes` gets within `max_bytes`: none
    /// when it already is, else entries are taken in order until they free the
    /// excess, or all of them.
    pub fn eviction_count(lru_sizes: &[u64], current_bytes: u64, max_bytes: u64) -> (r: usize)
        ensures
            r == eviction_count(lru_sizes@, current_bytes as nat, max_bytes as nat),
    {
        if current_bytes <= max_bytes {
            return 0;
        }
        let target: u64 = current_bytes - max_bytes;
        let ghost sizes = lru_sizes@;
        let mut freed: u128 = 0;
        let mut i: usize = 0;
        while i < lru_sizes.len()
            invariant
                sizes == lru_sizes@,
                target == current_bytes - max_bytes,
                0 <= i <= sizes.len(),
                freed == total_bytes(sizes.take(i as int)),
                first_reaching(sizes, target as nat, 0) == first_reaching(sizes, target as nat, i as nat),
            decreases sizes.len() - i,
        {
            if freed >= target as u128 {
                return i;
            }
            proof {
                lemma_total_take_step(sizes, i as int);
            }
            freed = freed + lru_sizes[i] as u128;
            i = i + 1;
        }
        i
    }

    /// The hexadecimal SHA-256 of the key text.
    pub fn compute_cache_key(model: &str, voice: &str, text: &str) -> (r: String)
        ensures
            r@ == lower_hex(sha256_digest(vstd::utf8::encode_utf8(cache_key_text(model@, voice@, text@)))),
    {
        let mut v: Vec<char> = Vec::new();
        push_str(&mut v, "v1:");
        push_str(&mut v, model);
        push_str(&mut v, ":");
        push_str(&mut v, voice);
        push_str(&mut v, ":");
        let t = str_to_chars(text);
        let tt = trim_chars(t.as_slice());
        let lower = to_lowercase_chars(tt.as_slice());
        push_all(&mut v, lower.as_slice());
        assert(v@ =~= cache_key_text(model@, voice@, text@));
        let s = chars_to_string(v.as_slice());
        let d = sha256(s.as_str().as_bytes());
        to_lower_hex(d.as_slice())
    }
}

} // verus!
