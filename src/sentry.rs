//! The cache of what Sentry indexes listed: for one index query, the ids of
//! the files it returned, kept for an hour in a bounded LRU cache.
use vstd::prelude::*;

use std::collections::hash_map::RandomState;

use crate::cache::age;
use crate::download::{search_is_fresh, SEARCH_RESULT_TTL_SECS};
use crate::keys::framed;
use crate::text::{str_eq, to_decimal};

verus! {

/// Index listings held at most.
pub const SEARCH_CACHE_CAPACITY: usize = 2000;

#[verifier::external_type_specification]
#[verifier::external_body]
#[verifier::reject_recursive_types(K)]
#[verifier::reject_recursive_types(V)]
#[verifier::reject_recursive_types(S)]
pub struct ExLruCache<K, V, S>(lru::LruCache<K, V, S>);

/// A listing: when it was made, and the ids it gave.
pub type Listing = (u64, Vec<String>);

/// What an LRU cache of listings holds: for each key, the time and the ids.
pub uninterp spec fn lru_listings(c: lru::LruCache<String, Listing, RandomState>) -> Map<Seq<char>, (u64, Seq<Seq<char>>)>;

/// The number of entries that an LRU cache of listings was made to hold.
pub uninterp spec fn lru_capacity(c: lru::LruCache<String, Listing, RandomState>) -> nat;

pub open spec fn ids_view(ids: Seq<String>) -> Seq<Seq<char>> {
    ids.map_values(|s: String| s@)
}

/// Relies on lru::LruCache::with_hasher: an empty cache that holds at most
/// `cap` entries.
#[verifier::external_body]
fn lru_new(cap: usize) -> (r: lru::LruCache<String, Listing, RandomState>)
    ensures
        forall|k: Seq<char>| !lru_listings(r).contains_key(k),
        lru_capacity(r) == cap,
{
    lru::LruCache::with_hasher(cap, RandomState::new())
}

/// Relies on lru::LruCache::get: the value under `key`, if the cache holds it.
/// Only the recency of the key changes, not what the cache holds.
#[verifier::external_body]
fn lru_get(c: &mut lru::LruCache<String, Listing, RandomState>, key: &String) -> (r: Option<Listing>)
    ensures
        lru_listings(*final(c)) == lru_listings(*old(c)),
        lru_capacity(*final(c)) == lru_capacity(*old(c)),
        match r {
            Some(v) => lru_listings(*old(c)).contains_key(key@) && lru_listings(*old(c))[key@] == (
                v.0,
                ids_view(v.1@),
            ),
            None => !lru_listings(*old(c)).contains_key(key@),
        },
{
    c.get(key).cloned()
}

/// Relies on lru::LruCache::put: with a capacity above zero, `key` then maps to
/// `value`; an entry already under `key` is replaced in place, and when the
/// cache is full another entry (the least recently used) makes room. Nothing
/// else changes, and nothing is stored with a capacity of zero.
#[verifier::external_body]
fn lru_put(c: &mut lru::LruCache<String, Listing, RandomState>, key: String, value: Listing)
    ensures
        lru_capacity(*final(c)) == lru_capacity(*old(c)),
        lru_capacity(*old(c)) == 0 ==> lru_listings(*final(c)) == lru_listings(*old(c)),
        lru_capacity(*old(c)) > 0 ==> lru_listings(*final(c)).contains_key(key@) && lru_listings(
            *final(c),
        )[key@] == (value.0, ids_view(value.1@)),
        forall|k: Seq<char>|
            #[trigger] lru_listings(*final(c)).contains_key(k) && k != key@ ==> lru_listings(
                *old(c),
            ).contains_key(k) && lru_listings(*final(c))[k] == lru_listings(*old(c))[k],
{
    c.put(key, value);
}

/// The key of an index query: the index URL, then the token.
pub open spec fn search_key(index_url: Seq<char>, token: Seq<char>) -> Seq<char> {
    framed(index_url) + token
}

/// Listings of Sentry indexes, by query.
pub struct SearchCache {
    inner: lru::LruCache<String, Listing, RandomState>,
}

impl SearchCache {
    /// The listing held for each query key.
    pub closed spec fn listings(&self) -> Map<Seq<char>, (u64, Seq<Seq<char>>)> {
        lru_listings(self.inner)
    }

    pub closed spec fn capacity(&self) -> nat {
        lru_capacity(self.inner)
    }

    /// An empty cache of up to 2000 listings.
    pub fn new() -> (r: SearchCache)
        ensures
            forall|k: Seq<char>| !r.listings().contains_key(k),
            r.capacity() == SEARCH_CACHE_CAPACITY,
    {
        SearchCache { inner: lru_new(SEARCH_CACHE_CAPACITY) }
    }

    fn key(index_url: &str, token: &str) -> (r: String)
        ensures
            r@ == search_key(index_url@, token@),
    {
        proof {
            reveal_strlit(":");
        }
        assert(":"@ =~= seq![':']);
        let n = index_url.unicode_len();
        to_decimal(n as u64).concat(":").concat(index_url).concat(token)
    }

    /// The ids that the index at `index_url` listed for `token`, if it was
    /// asked less than an hour before `now`; else the index must be asked.
    pub fn cached(&mut self, index_url: &str, token: &str, now: u64) -> (r: Option<Vec<String>>)
        ensures
            final(self).listings() == old(self).listings(),
            final(self).capacity() == old(self).capacity(),
            match r {
                Some(ids) => old(self).listings().contains_key(search_key(index_url@, token@))
                    && age(old(self).listings()[search_key(index_url@, token@)].0, now)
                    < SEARCH_RESULT_TTL_SECS && ids_view(ids@) == old(self).listings()[search_key(
                    index_url@,
                    token@,
                )].1,
                None => !old(self).listings().contains_key(search_key(index_url@, token@)) || age(
                    old(self).listings()[search_key(index_url@, token@)].0,
                    now,
                ) >= SEARCH_RESULT_TTL_SECS,
            },
    {
        let key = Self::key(index_url, token);
        match lru_get(&mut self.inner, &key) {
            Some((created, ids)) => if search_is_fresh(created, now) {
                Some(ids)
            } else {
                None
            },
            None => None,
        }
    }

    /// Keeps what the index at `index_url` listed for `token` at `now`.
    pub fn store(&mut self, index_url: &str, token: &str, now: u64, ids: Vec<String>)
        requires
            old(self).capacity() > 0,
        ensures
            final(self).capacity() == old(self).capacity(),
            final(self).listings().contains_key(search_key(index_url@, token@)),
            final(self).listings()[search_key(index_url@, token@)] == (now, ids_view(ids@)),
            forall|k: Seq<char>|
                #[trigger] final(self).listings().contains_key(k) && k != search_key(index_url@, token@)
                    ==> old(self).listings().contains_key(k) && final(self).listings()[k] == old(
                    self,
                ).listings()[k],
    {
        let key = Self::key(index_url, token);
        lru_put(&mut self.inner, key, (now, ids));
    }
}

/// A listing is served again for an hour after it was stored: a query asked
/// again within the hour does not reach the index.
pub proof fn lemma_listing_reused(
    listings: Map<Seq<char>, (u64, Seq<Seq<char>>)>,
    key: Seq<char>,
    ids: Seq<Seq<char>>,
    stored_at: u64,
    now: u64,
)
    requires
        listings.contains_key(key),
        listings[key] == (stored_at, ids),
        stored_at <= now,
        now - stored_at < SEARCH_RESULT_TTL_SECS,
    ensures
        age(listings[key].0, now) < SEARCH_RESULT_TTL_SECS,
        listings[key].1 == ids,
{
}

} // verus!
