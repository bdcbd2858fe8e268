//! The bounded cache behind the scrape payload: a least-recently-used map
//! from an outside crate, keyed by family name and holding encoded family
//! records.
//!
//! The cache's contents are modeled as a sequence of key/value pairs in
//! least- to most-recently-used order.  Each operation below is trusted to
//! behave as the crate's source shows; everything above these wrappers is
//! verified against the stated contracts.

use lru_cache::LruCache;
use vstd::prelude::*;

verus! {

#[verifier::external_type_specification]
#[verifier::external_body]
#[verifier::reject_recursive_types(K)]
#[verifier::reject_recursive_types(V)]
#[verifier::reject_recursive_types(S)]
pub struct ExLruCache<K: Eq + core::hash::Hash, V, S: core::hash::BuildHasher>(
    LruCache<K, V, S>,
);

/// The pairs a cache holds, in least- to most-recently-used order.
pub uninterp spec fn cache_entries(c: LruCache<String, Vec<u8>>) -> Seq<(Seq<char>, Seq<u8>)>;

/// The capacity a cache was created with.
pub uninterp spec fn cache_capacity(c: LruCache<String, Vec<u8>>) -> nat;

/// The value stored under `k`, if any.
pub open spec fn spec_cache_lookup(s: Seq<(Seq<char>, Seq<u8>)>, k: Seq<char>) -> Option<Seq<u8>>
    decreases s.len(),
{
    if s.len() == 0 {
        None
    } else if s.last().0 == k {
        Some(s.last().1)
    } else {
        spec_cache_lookup(s.drop_last(), k)
    }
}

/// The pairs with key `k` dropped.
pub open spec fn spec_cache_without(s: Seq<(Seq<char>, Seq<u8>)>, k: Seq<char>) -> Seq<
    (Seq<char>, Seq<u8>),
> {
    s.filter(|p: (Seq<char>, Seq<u8>)| p.0 != k)
}

/// The pairs after inserting `(k, v)` into a cache of capacity `cap`: the
/// key moves to the most-recent end with the new value, and the
/// least-recently-used pair leaves if the count would exceed the capacity.
pub open spec fn spec_cache_after_insert(
    s: Seq<(Seq<char>, Seq<u8>)>,
    k: Seq<char>,
    v: Seq<u8>,
    cap: nat,
) -> Seq<(Seq<char>, Seq<u8>)> {
    let pushed = spec_cache_without(s, k).push((k, v));
    if pushed.len() > cap {
        pushed.drop_first()
    } else {
        pushed
    }
}

/// Relies on `lru_cache::LruCache::new`: an empty cache that holds at most
/// `capacity` pairs.
#[verifier::external_body]
pub(crate) fn cache_new(capacity: usize) -> (c: LruCache<String, Vec<u8>>)
    ensures
        cache_entries(c) == Seq::<(Seq<char>, Seq<u8>)>::empty(),
        cache_capacity(c) == capacity,
{
    LruCache::new(capacity)
}

/// Relies on `lru_cache::LruCache::insert`, backed by a linked hash map: a
/// present key is rebound to the new value and moved to the most-recent
/// end, with its old value returned; an absent key is appended; then the
/// least-recently-used pair is dropped if the pair count exceeds the
/// capacity.
#[verifier::external_body]
pub(crate) fn cache_insert(c: &mut LruCache<String, Vec<u8>>, k: String, v: Vec<u8>) -> (old_value:
    Option<Vec<u8>>)
    ensures
        cache_entries(*final(c)) == spec_cache_after_insert(
            cache_entries(*old(c)),
            k@,
            v@,
            cache_capacity(*old(c)),
        ),
        cache_capacity(*final(c)) == cache_capacity(*old(c)),
        old_value is Some <==> spec_cache_lookup(cache_entries(*old(c)), k@) is Some,
        old_value matches Some(b) ==> spec_cache_lookup(cache_entries(*old(c)), k@) == Some(b@),
{
    c.insert(k, v)
}

/// Relies on `lru_cache::LruCache::remove`: the pair of the key leaves the
/// cache and its value is returned.
#[verifier::external_body]
pub(crate) fn cache_remove(c: &mut LruCache<String, Vec<u8>>, k: &String) -> (r: Option<Vec<u8>>)
    ensures
        cache_entries(*final(c)) == spec_cache_without(cache_entries(*old(c)), k@),
        cache_capacity(*final(c)) == cache_capacity(*old(c)),
        r is Some <==> spec_cache_lookup(cache_entries(*old(c)), k@) is Some,
        r matches Some(b) ==> spec_cache_lookup(cache_entries(*old(c)), k@) == Some(b@),
{
    c.remove(k)
}

/// Relies on `lru_cache::LruCache::iter`: the pairs in least- to
/// most-recently-used order; iterating does not change the cache.
#[verifier::external_body]
pub(crate) fn cache_items(c: &LruCache<String, Vec<u8>>) -> (r: Vec<(String, Vec<u8>)>)
    ensures
        r@.len() == cache_entries(*c).len(),
        forall|i: int|
            0 <= i < r@.len() ==> (#[trigger] r@[i]).0@ == cache_entries(*c)[i].0 && r@[i].1@
                == cache_entries(*c)[i].1,
{
    let mut out: Vec<(String, Vec<u8>)> = Vec::new();
    for (k, v) in c.iter() {
        out.push((k.clone(), v.clone()));
    }
    out
}

} // verus!
