//! The bounded store behind the circuit breaker: a least-recently-used
//! cache from skill name to circuit state, provided by the `lru` crate.
//!
//! Nothing in this file is proved of the cache. It declares the cache type,
//! names what a cache holds, and gives each cache method that the breaker
//! calls a contract over that name.

use vstd::prelude::*;
use crate::circuit_breaker::CircuitState;

verus! {

#[verifier::external_type_specification]
#[verifier::external_body]
#[verifier::reject_recursive_types(K)]
#[verifier::reject_recursive_types(V)]
#[verifier::reject_recursive_types(S)]
pub struct ExLruCache<K, V, S>(lru::LruCache<K, V, S>);

#[verifier::external_type_specification]
#[verifier::external_body]
pub struct ExDefaultHasher(lru::DefaultHasher);

/// The tracked circuits as a sequence of (skill name, state) pairs,
/// most recently used first.
pub type Entries = Seq<(Seq<char>, CircuitState)>;

/// What `cache` holds, most recently used first.
pub uninterp spec fn cache_entries(cache: lru::LruCache<String, CircuitState>) -> Entries;

/// The number of entries that `cache` was created to hold at most.
pub uninterp spec fn cache_limit(cache: lru::LruCache<String, CircuitState>) -> nat;

/// The state stored under `key`, if any.
pub open spec fn lookup(entries: Entries, key: Seq<char>) -> Option<CircuitState>
    decreases entries.len(),
{
    if entries.len() == 0 {
        None
    } else if entries[0].0 == key {
        Some(entries[0].1)
    } else {
        lookup(entries.drop_first(), key)
    }
}

/// `entries` with everything stored under `key` taken out, order kept.
pub open spec fn without(entries: Entries, key: Seq<char>) -> Entries
    decreases entries.len(),
{
    if entries.len() == 0 {
        entries
    } else if entries[0].0 == key {
        without(entries.drop_first(), key)
    } else {
        seq![entries[0]] + without(entries.drop_first(), key)
    }
}

/// The effect of reading `key`: a hit moves the entry to the front.
pub open spec fn promoted(entries: Entries, key: Seq<char>) -> Entries {
    match lookup(entries, key) {
        Some(state) => seq![(key, state)] + without(entries, key),
        None => entries,
    }
}

/// The effect of storing `state` under `key` in a cache limited to `limit`
/// entries: an existing entry is replaced and moved to the front; a new one
/// goes to the front, and pushes out the least recently used entry when the
/// cache is full.
pub open spec fn stored(entries: Entries, limit: nat, key: Seq<char>, state: CircuitState) -> Entries {
    if lookup(entries, key) is Some {
        seq![(key, state)] + without(entries, key)
    } else if entries.len() >= limit && entries.len() > 0 {
        seq![(key, state)] + entries.drop_last()
    } else {
        seq![(key, state)] + entries
    }
}

/// `lru::LruCache::sparse`: an empty cache limited to `limit` entries, which
/// sets no storage aside before entries come.
#[verifier::external_body]
pub(crate) fn cache_new(limit: usize) -> (cache: lru::LruCache<String, CircuitState>)
    requires
        limit > 0,
    ensures
        cache_entries(cache) == Seq::<(Seq<char>, CircuitState)>::empty(),
        cache_limit(cache) == limit,
{
    lru::LruCache::sparse(std::num::NonZeroUsize::new(limit).unwrap())
}

/// `lru::LruCache::get`: the state under `key`, which becomes the most
/// recently used entry; a miss changes nothing.
#[verifier::external_body]
pub(crate) fn cache_get(cache: &mut lru::LruCache<String, CircuitState>, key: &str) -> (found: Option<CircuitState>)
    ensures
        found == lookup(cache_entries(*old(cache)), key@),
        cache_entries(*final(cache)) == promoted(cache_entries(*old(cache)), key@),
        cache_limit(*final(cache)) == cache_limit(*old(cache)),
{
    cache.get(key).copied()
}

/// `lru::LruCache::put`: stores `state` under `key` as the most recently
/// used entry and returns the state it replaces. A new key in a full cache
/// pushes out the least recently used entry.
#[verifier::external_body]
pub(crate) fn cache_put(cache: &mut lru::LruCache<String, CircuitState>, key: String, state: CircuitState) -> (replaced: Option<CircuitState>)
    ensures
        replaced == lookup(cache_entries(*old(cache)), key@),
        cache_entries(*final(cache)) == stored(
            cache_entries(*old(cache)),
            cache_limit(*old(cache)),
            key@,
            state,
        ),
        cache_limit(*final(cache)) == cache_limit(*old(cache)),
{
    cache.put(key, state)
}

/// `lru::LruCache::pop`: removes the entry under `key` and returns its
/// state; the order of the others is kept.
#[verifier::external_body]
pub(crate) fn cache_pop(cache: &mut lru::LruCache<String, CircuitState>, key: &str) -> (removed: Option<CircuitState>)
    ensures
        removed == lookup(cache_entries(*old(cache)), key@),
        cache_entries(*final(cache)) == without(cache_entries(*old(cache)), key@),
        cache_limit(*final(cache)) == cache_limit(*old(cache)),
{
    cache.pop(key)
}

/// `lru::LruCache::len`: the number of entries held.
#[verifier::external_body]
pub(crate) fn cache_len(cache: &lru::LruCache<String, CircuitState>) -> (len: usize)
    ensures
        len == cache_entries(*cache).len(),
{
    cache.len()
}

/// `lru::LruCache::cap`: the limit that the cache was created with.
#[verifier::external_body]
pub(crate) fn cache_cap(cache: &lru::LruCache<String, CircuitState>) -> (limit: usize)
    ensures
        limit == cache_limit(*cache),
{
    cache.cap().get()
}

/// `lru::LruCache::iter`: a copy of every entry, most recently used first.
#[verifier::external_body]
pub(crate) fn cache_snapshot(cache: &lru::LruCache<String, CircuitState>) -> (items: Vec<(String, CircuitState)>)
    ensures
        items@.len() == cache_entries(*cache).len(),
        forall|i: int|
            0 <= i < items@.len() ==> (#[trigger] items@[i]).0@ == cache_entries(*cache)[i].0
                && items@[i].1 == cache_entries(*cache)[i].1,
{
    cache.iter().map(|(name, state)| (name.clone(), *state)).collect()
}

} // verus!
