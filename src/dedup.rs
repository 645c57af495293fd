//! Deduplication keys of emitted records, and the bounded cache of keys
//! already emitted.
use vstd::prelude::*;

verus! {

/// The fields of a record that decide whether two records are the same
/// event.
#[derive(Clone, Debug, PartialEq, Eq, Hash)]
pub struct DedupKey {
    pub fields: Vec<String>,
}

impl View for DedupKey {
    type V = Seq<Seq<char>>;

    open spec fn view(&self) -> Seq<Seq<char>> {
        self.fields@.map_values(|s: String| s@)
    }
}

/// A record that has a deduplication key.
pub trait Keyed {
    spec fn key_view(&self) -> Seq<Seq<char>>;

    /// The record's remote address is its pod's own.
    spec fn is_self_flow(&self) -> bool;

    /// `self`, already kept, makes `other` a duplicate.
    spec fn dup_of(&self, other: &Self) -> bool;

    fn is_dup_of(&self, other: &Self) -> (r: bool)
        ensures
            r == self.dup_of(other),
    ;

    fn dedup_key(&self) -> (k: DedupKey)
        ensures
            k@ == self.key_view(),
    ;
}

#[verifier::external_type_specification]
#[verifier::external_body]
#[verifier::reject_recursive_types(K)]
#[verifier::reject_recursive_types(V)]
#[verifier::reject_recursive_types(S)]
pub struct ExCache<K, V, S>(moka::sync::Cache<K, V, S>);

/// The keys that a cache holds.
pub uninterp spec fn cached_keys(c: moka::sync::Cache<DedupKey, ()>) -> Set<Seq<Seq<char>>>;

/// The number of entries that a cache was built to hold.
pub uninterp spec fn cache_capacity(c: moka::sync::Cache<DedupKey, ()>) -> nat;

/// Relies on moka::sync::Cache::new: a new cache is empty and holds up to
/// `max_capacity` entries.
#[verifier::external_body]
fn cache_new(max_capacity: u64) -> (r: moka::sync::Cache<DedupKey, ()>)
    ensures
        cached_keys(r) == Set::<Seq<Seq<char>>>::empty(),
        cache_capacity(r) == max_capacity,
{
    moka::sync::Cache::new(max_capacity)
}

/// Relies on moka::sync::Cache::contains_key, which reads the cache and
/// changes nothing; no entry of these caches expires by time.
#[verifier::external_body]
fn cache_contains(c: &moka::sync::Cache<DedupKey, ()>, key: &DedupKey) -> (r: bool)
    ensures
        r == cached_keys(*c).contains(key@),
{
    c.contains_key(key)
}

/// Relies on moka::sync::Cache::insert: the key is added, and the eviction
/// that an insertion may run can drop any key, the new one included. Each
/// entry weighs one, and eviction or refused admission happen only when the
/// entries would exceed the capacity; below it the key is simply added. The
/// cache is taken `&mut` so that no other holder sees it change.
#[verifier::external_body]
fn cache_insert(c: &mut moka::sync::Cache<DedupKey, ()>, key: DedupKey)
    ensures
        cached_keys(*final(c)).subset_of(cached_keys(*old(c)).insert(key@)),
        cache_capacity(*final(c)) == cache_capacity(*old(c)),
        cached_keys(*old(c)).finite() && cached_keys(*old(c)).len() < cache_capacity(*old(c))
            ==> cached_keys(*final(c)) == cached_keys(*old(c)).insert(key@),
{
    c.insert(key, ())
}

/// A bounded cache of the keys of records already emitted, owned by one
/// pipeline. It may forget keys at any insertion, so it suppresses most
/// repeats but not all.
pub struct DedupCache {
    inner: moka::sync::Cache<DedupKey, ()>,
}

impl DedupCache {
    /// The keys that the cache holds.
    pub closed spec fn keys(&self) -> Set<Seq<Seq<char>>> {
        cached_keys(self.inner)
    }

    /// The number of keys the cache was built to hold.
    pub closed spec fn capacity(&self) -> nat {
        cache_capacity(self.inner)
    }

    pub fn new(max_capacity: u64) -> (r: Self)
        ensures
            r.keys() == Set::<Seq<Seq<char>>>::empty(),
            r.capacity() == max_capacity,
    {
        DedupCache { inner: cache_new(max_capacity) }
    }

    /// Whether the cache holds `key`.
    pub fn contains(&self, key: &DedupKey) -> (r: bool)
        ensures
            r == self.keys().contains(key@),
    {
        cache_contains(&self.inner, key)
    }

    /// Adds `key`. Over capacity any key may be evicted, the new one
    /// included; below capacity the key is simply added.
    pub fn insert(&mut self, key: DedupKey)
        ensures
            final(self).keys().subset_of(old(self).keys().insert(key@)),
            final(self).capacity() == old(self).capacity(),
            old(self).keys().finite() && old(self).keys().len() < old(self).capacity()
                ==> final(self).keys() == old(self).keys().insert(key@),
    {
        cache_insert(&mut self.inner, key)
    }
}

} // verus!
