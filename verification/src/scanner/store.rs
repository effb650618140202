//! The concurrent map that holds the snapshots of a cache, and what the
//! cache relies on of it.

use vstd::prelude::*;
use dashmap::DashMap;
use crate::paths::{path_within, starts_with};
use crate::scanner::cache::{age, age_of, CachedDirectory, Snapshot};

verus! {

/// `dashmap::DashMap`, a hash map behind sharded locks. Nothing inside it
/// is visible here; what it holds is known by `stored` alone.
#[verifier::external_type_specification]
#[verifier::external_body]
#[verifier::reject_recursive_types(K)]
#[verifier::reject_recursive_types(V)]
#[verifier::reject_recursive_types(S)]
pub struct ExDashMap<K, V, S>(DashMap<K, V, S>);

/// Snapshots by the text of their directory's path.
pub type Contents = Map<Seq<char>, Snapshot>;

/// The snapshots that a map holds, each under the text of its directory's path.
pub uninterp spec fn stored(map: DashMap<String, CachedDirectory>) -> Contents;

/// Which snapshots a sweep over the map leaves in place.
#[derive(Debug)]
pub enum Retention {
    /// Those that lie neither at this path nor below it.
    OutsideOf(String),
    /// Those that are no older than `ttl` when the clock reads `now`.
    FreshAt { ttl: u128, now: u128 },
}

/// What a `Retention` holds, as mathematical values.
pub enum RetentionView {
    OutsideOf(Seq<char>),
    FreshAt { ttl: u128, now: u128 },
}

impl View for Retention {
    type V = RetentionView;

    open spec fn view(&self) -> RetentionView {
        match self {
            Retention::OutsideOf(root) => RetentionView::OutsideOf(root@),
            Retention::FreshAt { ttl, now } => RetentionView::FreshAt { ttl: *ttl, now: *now },
        }
    }
}

/// Whether a snapshot taken at `cached_at` has outlived `ttl` when the clock
/// reads `now`.
pub open spec fn is_expired(cached_at: u128, ttl: u128, now: u128) -> bool {
    age(cached_at, now) > ttl
}

/// Whether a sweep under `rule` leaves the snapshot under `key` in place.
pub open spec fn retained(rule: RetentionView, key: Seq<char>, value: Snapshot) -> bool {
    match rule {
        RetentionView::OutsideOf(root) => !path_within(key, root),
        RetentionView::FreshAt { ttl, now } => !is_expired(value.cached_at, ttl, now),
    }
}

/// What a sweep under `rule` leaves of `m`.
pub open spec fn swept(m: Contents, rule: RetentionView) -> Contents {
    Map::new(|k: Seq<char>| m.contains_key(k) && retained(rule, k, m[k]), |k: Seq<char>| m[k])
}

/// Whether a snapshot taken at `cached_at` has outlived `ttl` at `now`.
pub fn expired(cached_at: u128, ttl: u128, now: u128) -> (r: bool)
    ensures
        r == is_expired(cached_at, ttl, now),
{
    age_of(cached_at, now) > ttl
}

/// Whether a sweep under `rule` leaves the snapshot under `key` in place.
pub fn keeps(rule: &Retention, key: &String, value: &CachedDirectory) -> (r: bool)
    ensures
        r == retained(rule@, key@, value@),
{
    match rule {
        Retention::OutsideOf(root) => !starts_with(key.as_str(), root.as_str()),
        Retention::FreshAt { ttl, now } => !value.is_expired(*ttl, *now),
    }
}

/// `DashMap::new`: a map that holds nothing.
#[verifier::external_body]
pub(crate) fn store_new() -> (map: DashMap<String, CachedDirectory>)
    ensures
        stored(map) == Contents::empty(),
{
    DashMap::new()
}

/// `DashMap::len`: the number of keys.
#[verifier::external_body]
pub(crate) fn store_len(map: &DashMap<String, CachedDirectory>) -> (n: usize)
    ensures
        n == stored(*map).len(),
{
    map.len()
}

/// `DashMap::contains_key`: whether a value stands under the key.
#[verifier::external_body]
pub(crate) fn store_contains(map: &DashMap<String, CachedDirectory>, key: &str) -> (r: bool)
    ensures
        r == stored(*map).contains_key(key@),
{
    map.contains_key(key)
}

/// `DashMap::get`: the value under the key, here as a copy, or nothing where
/// the key is absent.
#[verifier::external_body]
pub(crate) fn store_get(map: &DashMap<String, CachedDirectory>, key: &str) -> (r: Option<
    CachedDirectory,
>)
    ensures
        match r {
            Some(found) => stored(*map).contains_key(key@) && found@ == stored(*map)[key@],
            None => !stored(*map).contains_key(key@),
        },
{
    map.get(key).map(|found| found.value().clone())
}

/// `DashMap::insert`: the value stands under the key afterwards, in place of
/// whatever stood there; every other key keeps its value. The call does not
/// unwind: hashing and comparing texts do not panic.
#[verifier::external_body]
pub(crate) fn store_insert(
    map: &mut DashMap<String, CachedDirectory>,
    key: String,
    value: CachedDirectory,
)
    ensures
        stored(*final(map)) == stored(*old(map)).insert(key@, value@),
    no_unwind
{
    map.insert(key, value);
}

/// `DashMap::remove`: the key is absent afterwards; every other key keeps its
/// value. The call does not unwind.
#[verifier::external_body]
pub(crate) fn store_remove(map: &mut DashMap<String, CachedDirectory>, key: &str)
    ensures
        stored(*final(map)) == stored(*old(map)).remove(key@),
    no_unwind
{
    map.remove(key);
}

/// `DashMap::retain`: the map keeps exactly the pairs for which the closure
/// answers true, unchanged. The closure is `keeps` under `rule`; the call
/// does not unwind.
#[verifier::external_body]
pub(crate) fn store_retain(map: &mut DashMap<String, CachedDirectory>, rule: &Retention)
    ensures
        stored(*final(map)) == swept(stored(*old(map)), rule@),
    no_unwind
{
    map.retain(|key, value| keeps(rule, key, value));
}

/// `DashMap::clear`: the map holds nothing afterwards. The call does not
/// unwind.
#[verifier::external_body]
pub(crate) fn store_clear(map: &mut DashMap<String, CachedDirectory>)
    ensures
        stored(*final(map)) == Contents::empty(),
    no_unwind
{
    map.clear();
}

/// `DashMap::iter`, each pair handed out as its key and the time of its
/// snapshot: every key of the map comes once, in no stated order.
#[verifier::external_body]
pub(crate) fn store_times(map: &DashMap<String, CachedDirectory>) -> (r: Vec<(String, u128)>)
    ensures
        forall|i: int|
            0 <= i < r.len() ==> stored(*map).contains_key(#[trigger] r[i].0@) && stored(
                *map,
            )[r[i].0@].cached_at == r[i].1,
        forall|k: Seq<char>|
            stored(*map).contains_key(k) ==> exists|i: int|
                0 <= i < r.len() && #[trigger] r[i].0@ == k,
        forall|i: int, j: int|
            0 <= i < j < r.len() ==> #[trigger] r[i].0@ != #[trigger] r[j].0@,
{
    map.iter().map(|pair| (pair.key().clone(), pair.value().cached_at)).collect()
}

} // verus!
