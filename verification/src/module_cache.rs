//! The least-recently-used cache of module access records, kept in an
//! `lru::LruCache` keyed by module identifier.
//!
//! A record is the time a module was last used (milliseconds of the caller's
//! clock) and how often it was used. The entries are seen as a sequence from
//! least to most recently used.
use vstd::prelude::*;
use lru::LruCache;

verus! {

#[verifier::external_type_specification]
#[verifier::external_body]
#[verifier::reject_recursive_types(K)]
#[verifier::reject_recursive_types(V)]
#[verifier::reject_recursive_types(S)]
pub struct ExLruCache<K, V, S>(LruCache<K, V, S>);

#[verifier::external_type_specification]
#[verifier::external_body]
pub struct ExDefaultHasher(lru::DefaultHasher);

/// A cache entry as the contracts see it: key, and (last use, use count).
pub type CacheEntryView = (Seq<char>, (u64, u64));

/// The entries of a cache, least recently used first.
pub uninterp spec fn lru_entries(c: LruCache<String, (u64, u64)>) -> Seq<(Seq<char>, (u64, u64))>;

/// The capacity a cache was made with.
pub uninterp spec fn lru_capacity(c: LruCache<String, (u64, u64)>) -> nat;

/// No key occurs twice.
pub open spec fn keys_distinct(e: Seq<CacheEntryView>) -> bool {
    forall|i: int, j: int| 0 <= i < j < e.len() ==> (#[trigger] e[i]).0 != (#[trigger] e[j]).0
}

/// The position of the entry with key `k`.
pub open spec fn key_position(e: Seq<CacheEntryView>, k: Seq<char>) -> Option<int>
    decreases e.len(),
{
    if e.len() == 0 {
        None
    } else if e.last().0 == k {
        Some(e.len() - 1)
    } else {
        key_position(e.drop_last(), k)
    }
}

/// What every cache satisfies: distinct keys, no more entries than its capacity.
pub open spec fn cache_ok(e: Seq<CacheEntryView>, cap: nat) -> bool {
    &&& keys_distinct(e)
    &&& e.len() <= cap
    &&& cap > 0
}

/// `LruCache::new`: an empty cache of capacity `cap`.
#[verifier::external_body]
pub(crate) fn lru_new(cap: usize) -> (c: LruCache<String, (u64, u64)>)
    requires
        cap > 0,
    ensures
        lru_entries(c) == Seq::<CacheEntryView>::empty(),
        lru_capacity(c) == cap,
{
    LruCache::new(std::num::NonZeroUsize::new(cap).unwrap())
}

/// `LruCache::get`: the value for `k`, whose entry becomes the most recently
/// used; nothing changes when `k` is absent.
#[verifier::external_body]
pub(crate) fn lru_get(c: &mut LruCache<String, (u64, u64)>, k: &str) -> (r: Option<(u64, u64)>)
    requires
        cache_ok(lru_entries(*old(c)), lru_capacity(*old(c))),
    ensures
        lru_capacity(*final(c)) == lru_capacity(*old(c)),
        cache_ok(lru_entries(*final(c)), lru_capacity(*final(c))),
        match key_position(lru_entries(*old(c)), k@) {
            Some(i) => r == Some(lru_entries(*old(c))[i].1) && lru_entries(*final(c))
                == lru_entries(*old(c)).remove(i).push(lru_entries(*old(c))[i]),
            None => r is None && lru_entries(*final(c)) == lru_entries(*old(c)),
        },
{
    c.get(k).copied()
}

/// `LruCache::put`: the entry for `k` gets value `v` and becomes the most
/// recently used; a new key in a full cache evicts the least recently used entry.
#[verifier::external_body]
pub(crate) fn lru_put(c: &mut LruCache<String, (u64, u64)>, k: String, v: (u64, u64))
    requires
        cache_ok(lru_entries(*old(c)), lru_capacity(*old(c))),
    ensures
        lru_capacity(*final(c)) == lru_capacity(*old(c)),
        cache_ok(lru_entries(*final(c)), lru_capacity(*final(c))),
        lru_entries(*final(c)) == match key_position(lru_entries(*old(c)), k@) {
            Some(i) => lru_entries(*old(c)).remove(i).push((k@, v)),
            None => if lru_entries(*old(c)).len() == lru_capacity(*old(c)) {
                lru_entries(*old(c)).drop_first().push((k@, v))
            } else {
                lru_entries(*old(c)).push((k@, v))
            },
        },
{
    c.put(k, v);
}

/// `LruCache::pop`: removes the entry for `k`, if there is one.
#[verifier::external_body]
pub(crate) fn lru_pop(c: &mut LruCache<String, (u64, u64)>, k: &str)
    requires
        cache_ok(lru_entries(*old(c)), lru_capacity(*old(c))),
    ensures
        lru_capacity(*final(c)) == lru_capacity(*old(c)),
        cache_ok(lru_entries(*final(c)), lru_capacity(*final(c))),
        lru_entries(*final(c)) == match key_position(lru_entries(*old(c)), k@) {
            Some(i) => lru_entries(*old(c)).remove(i),
            None => lru_entries(*old(c)),
        },
{
    c.pop(k);
}

/// `LruCache::clear`: removes every entry.
#[verifier::external_body]
pub(crate) fn lru_clear(c: &mut LruCache<String, (u64, u64)>)
    requires
        cache_ok(lru_entries(*old(c)), lru_capacity(*old(c))),
    ensures
        lru_capacity(*final(c)) == lru_capacity(*old(c)),
        lru_entries(*final(c)) == Seq::<CacheEntryView>::empty(),
{
    c.clear();
}

/// `LruCache::len`: the number of entries.
#[verifier::external_body]
pub(crate) fn lru_len(c: &LruCache<String, (u64, u64)>) -> (n: usize)
    ensures
        n == lru_entries(*c).len(),
{
    c.len()
}


/// Where a key sits, if anywhere.
pub proof fn lemma_key_position_props(e: Seq<CacheEntryView>, k: Seq<char>)
    ensures
        key_position(e, k) matches Some(i) ==> 0 <= i < e.len() && e[i].0 == k,
        key_position(e, k) is None <==> forall|j: int| 0 <= j < e.len() ==> e[j].0 != k,
    decreases e.len(),
{
    if e.len() > 0 && e.last().0 != k {
        lemma_key_position_props(e.drop_last(), k);
        if key_position(e, k) is None {
            assert forall|j: int| 0 <= j < e.len() implies e[j].0 != k by {
                if j < e.len() - 1 {
                    assert(e.drop_last()[j] == e[j]);
                }
            }
        } else {
            let j = choose|j: int| 0 <= j < e.drop_last().len() && e.drop_last()[j].0 == k;
            if forall|j: int| 0 <= j < e.len() ==> e[j].0 != k {
                assert(e[j] == e.drop_last()[j]);
            }
        }
    } else if e.len() > 0 {
        assert(e[e.len() - 1].0 == k);
    }
}

} // verus!
