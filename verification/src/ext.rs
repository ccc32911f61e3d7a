//! Trusted declarations for the outside functions the library relies on.
//!
//! Every item here is believed, not proved: each wrapper's body makes one
//! outside call, and its contract states only what that function's source or
//! documentation plainly shows.

use vstd::prelude::*;
use std::collections::hash_map::RandomState;

verus! {

/// Relies on String::push: appends the given char to the end of the string.
#[verifier::external_body]
pub fn push_char(s: &mut String, c: char)
    ensures
        final(s)@ == old(s)@.push(c),
{
    s.push(c);
}

/// Relies on uuid's Uuid::new_v4 and its hyphenated rendering: 36
/// characters.  The value is drawn at random, so nothing is promised of it
/// beyond its length.
#[verifier::external_body]
pub fn new_uuid() -> (r: String)
    ensures
        r@.len() == 36,
{
    uuid::Uuid::new_v4().to_string()
}

/// Relies on chrono's Utc::now: the wall clock, rendered as an ISO-8601
/// timestamp.  The value depends on the clock, so nothing is promised of it.
#[verifier::external_body]
pub fn now_timestamp() -> (r: String) {
    chrono::Utc::now().naive_utc().format("%Y-%m-%dT%H:%M:%S%.f").to_string()
}

/// moka's bounded concurrent cache, opaque to the verifier; what it holds
/// is named by `cache_contents`.
#[verifier::external_type_specification]
#[verifier::external_body]
#[verifier::reject_recursive_types(K)]
#[verifier::reject_recursive_types(V)]
#[verifier::reject_recursive_types(S)]
pub struct ExMokaCache<K, V, S>(moka::sync::Cache<K, V, S>);

/// The set of keys the fingerprint cache currently retains.
pub uninterp spec fn cache_contents(c: moka::sync::Cache<String, (), RandomState>) -> Set<
    Seq<char>,
>;

/// The bound the fingerprint cache was created with.
pub uninterp spec fn cache_bound(c: moka::sync::Cache<String, (), RandomState>) -> int;

/// Relies on moka::sync::Cache::new: a fresh cache, bounded by
/// `max_capacity`, holds no entries.
#[verifier::external_body]
pub fn cache_new(max_capacity: u64) -> (c: moka::sync::Cache<String, (), RandomState>)
    ensures
        cache_contents(c) == Set::<Seq<char>>::empty(),
        cache_bound(c) == max_capacity as int,
{
    moka::sync::Cache::new(max_capacity)
}

/// Relies on moka::sync::Cache::contains_key: whether the cache holds an
/// entry for the key.
#[verifier::external_body]
pub fn cache_contains(c: &moka::sync::Cache<String, (), RandomState>, key: &String) -> (r: bool)
    ensures
        r == cache_contents(*c).contains(key@),
{
    c.contains_key(key)
}

/// Relies on moka::sync::Cache::insert.  The entry is written to the
/// cache's map; the bound's eviction policy may drop entries — even the
/// new one — during maintenance, so the cache retains no key that was
/// neither there before nor inserted.  Eviction runs only once the
/// weighted size exceeds the bound (each entry weighs one here), and a
/// candidate is admitted outright while there is room, so below the
/// bound the inserted key is retained.
#[verifier::external_body]
pub fn cache_insert(c: &mut moka::sync::Cache<String, (), RandomState>, key: String)
    ensures
        cache_contents(*final(c)).subset_of(cache_contents(*old(c)).insert(key@)),
        cache_bound(*final(c)) == cache_bound(*old(c)),
        cache_contents(*old(c)).finite() && cache_contents(*old(c)).len() < cache_bound(*old(c))
            ==> cache_contents(*final(c)).contains(key@),
{
    c.insert(key, ());
}

} // verus!
