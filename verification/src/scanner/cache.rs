//! The entries of a directory and the cache that holds the snapshots of
//! directories by path.

use vstd::prelude::*;
use dashmap::DashMap;
use std::time::Instant;
use crate::paths::path_within;
use crate::scanner::clock::{clock_read, clock_start};
use crate::scanner::store::{
    expired, is_expired, store_clear, store_contains, store_get, store_insert, store_len,
    store_new, store_remove, store_retain, store_times, stored, swept, Contents, Retention,
    RetentionView,
};
use crate::text::{
    chars_of, find_last_dot, last_dot, lemma_last_dot, lowercase, lowercase_of, string_of_range,
};

verus! {

/// Longest time, in nanoseconds, that a snapshot stays valid by default.
pub const DEFAULT_TTL_NANOS: u128 = 5_000_000_000;

/// Largest number of directories that a cache holds at once.
pub const MAX_CACHE_SIZE: usize = 100;

/// Age of a snapshot taken at `cached_at` when the clock reads `now`; zero
/// where the clock reads earlier than the capture.
pub open spec fn age(cached_at: u128, now: u128) -> int {
    if now >= cached_at {
        now - cached_at
    } else {
        0
    }
}

/// Age of a snapshot taken at `cached_at` when the clock reads `now`.
pub fn age_of(cached_at: u128, now: u128) -> (r: u128)
    ensures
        r == age(cached_at, now),
{
    if now >= cached_at {
        now - cached_at
    } else {
        0
    }
}

/// Whether a name marks its entry as hidden: it begins with a full stop.
pub open spec fn starts_with_dot(name: Seq<char>) -> bool {
    name.len() > 0 && name[0] == '.'
}

/// The part of a file's name after its last full stop. A name without a full
/// stop has none, nor has one whose only full stop comes first, nor has the
/// name of the parent directory.
pub open spec fn name_suffix(name: Seq<char>) -> Option<Seq<char>> {
    match last_dot(name) {
        Some(i) => if i > 0 && name != seq!['.', '.'] {
            Some(name.subrange(i + 1, name.len() as int))
        } else {
            None
        },
        None => None,
    }
}

/// The extension that an entry records for a file of this name: its suffix,
/// in lowercase.
pub open spec fn name_extension(name: Seq<char>) -> Option<Seq<char>> {
    match name_suffix(name) {
        Some(suffix) => Some(lowercase_of(suffix)),
        None => None,
    }
}

/// The entry that stands for a child called `name`. Only a directory can hold
/// the marker file, and only a file has an extension.
pub open spec fn listed_entry(name: Seq<char>, is_dir: bool, has_marker: bool) -> EntryView {
    EntryView {
        name,
        is_dir,
        is_hidden: starts_with_dot(name),
        has_cmake: is_dir && has_marker,
        extension: if is_dir {
            None
        } else {
            name_extension(name)
        },
    }
}

/// An entry is well formed when its flags and its extension are those that
/// its name and kind give.
pub open spec fn well_formed(e: EntryView) -> bool {
    e == listed_entry(e.name, e.is_dir, e.has_cmake)
}

/// The part of a file's name after its last full stop.
pub fn suffix_of(name: &str) -> (r: Option<String>)
    ensures
        r.deep_view() == name_suffix(name@),
{
    let chars = chars_of(name);
    match find_last_dot(&chars) {
        Some(i) => {
            if i > 0 && !(chars.len() == 2 && chars[0] == '.') {
                assert(chars@ != seq!['.', '.']) by {
                    if chars@.len() == 2 {
                        assert(seq!['.', '.'][0] == '.');
                    } else {
                        assert(seq!['.', '.'].len() == 2);
                    }
                }
                Some(string_of_range(&chars, i + 1, chars.len()))
            } else {
                proof {
                    if i > 0 {
                        lemma_last_dot(chars@);
                        assert(chars@[1] == '.');
                        assert(chars@ =~= seq!['.', '.']);
                    }
                }
                None
            }
        },
        None => None,
    }
}

/// One child of a directory, as a listing records it.
#[derive(Debug)]
pub struct CachedEntry {
    /// The bare name of the child.
    pub name: String,
    pub is_dir: bool,
    /// Whether the name begins with a full stop.
    pub is_hidden: bool,
    /// Whether the child is a directory that directly holds the marker file.
    pub has_cmake: bool,
    /// The extension of a file's name, in lowercase.
    pub extension: Option<String>,
}

/// What a `CachedEntry` holds, as mathematical values.
pub struct EntryView {
    pub name: Seq<char>,
    pub is_dir: bool,
    pub is_hidden: bool,
    pub has_cmake: bool,
    pub extension: Option<Seq<char>>,
}

impl View for CachedEntry {
    type V = EntryView;

    open spec fn view(&self) -> EntryView {
        EntryView {
            name: self.name@,
            is_dir: self.is_dir,
            is_hidden: self.is_hidden,
            has_cmake: self.has_cmake,
            extension: match self.extension {
                Some(e) => Some(e@),
                None => None,
            },
        }
    }
}

impl DeepView for CachedEntry {
    type V = EntryView;

    open spec fn deep_view(&self) -> EntryView {
        self@
    }
}

impl Clone for CachedEntry {
    fn clone(&self) -> (r: Self)
        ensures
            r@ == self@,
    {
        CachedEntry {
            name: self.name.clone(),
            is_dir: self.is_dir,
            is_hidden: self.is_hidden,
            has_cmake: self.has_cmake,
            extension: match &self.extension {
                Some(e) => Some(e.clone()),
                None => None,
            },
        }
    }
}

impl CachedEntry {
    /// The entry for a child called `name`, of which a listing found whether
    /// it is a directory and whether it holds the marker file.
    pub fn from_listing(name: String, is_dir: bool, has_marker: bool) -> (r: Self)
        ensures
            r@ == listed_entry(name@, is_dir, has_marker),
            well_formed(r@),
    {
        let chars = chars_of(name.as_str());
        let is_hidden = chars.len() > 0 && chars[0] == '.';
        let extension = if is_dir {
            None
        } else {
            match suffix_of(name.as_str()) {
                Some(suffix) => Some(lowercase(suffix.as_str())),
                None => None,
            }
        };
        CachedEntry { name, is_dir, is_hidden, has_cmake: is_dir && has_marker, extension }
    }
}

/// A copy of a listing, entry by entry.
pub fn clone_entries(entries: &Vec<CachedEntry>) -> (r: Vec<CachedEntry>)
    ensures
        r.deep_view() == entries.deep_view(),
{
    let mut out: Vec<CachedEntry> = Vec::new();
    let mut i: usize = 0;
    while i < entries.len()
        invariant
            i <= entries.len(),
            out.len() == i,
            forall|j: int| 0 <= j < i ==> out[j]@ == entries[j]@,
        decreases entries.len() - i,
    {
        out.push(entries[i].clone());
        i += 1;
    }
    assert(out.deep_view() =~= entries.deep_view());
    out
}

/// The listing of one directory with the time at which it was taken.
#[derive(Debug)]
pub struct CachedDirectory {
    /// The children, unfiltered, in the order of the listing.
    pub entries: Vec<CachedEntry>,
    /// When the listing was taken, in nanoseconds on the cache's clock.
    pub cached_at: u128,
}

/// What a `CachedDirectory` holds, as mathematical values.
pub struct Snapshot {
    pub entries: Seq<EntryView>,
    pub cached_at: u128,
}

impl View for CachedDirectory {
    type V = Snapshot;

    open spec fn view(&self) -> Snapshot {
        Snapshot { entries: self.entries.deep_view(), cached_at: self.cached_at }
    }
}

impl CachedDirectory {
    /// Whether the snapshot has outlived `ttl` when the clock reads `now`.
    pub fn is_expired(&self, ttl: u128, now: u128) -> (r: bool)
        ensures
            r == is_expired(self@.cached_at, ttl, now),
    {
        expired(self.cached_at, ttl, now)
    }
}

impl Clone for CachedDirectory {
    fn clone(&self) -> (r: Self)
        ensures
            r@ == self@,
    {
        CachedDirectory { entries: clone_entries(&self.entries), cached_at: self.cached_at }
    }
}

/// How many snapshots a cache holds, and how many of them are still valid.
#[derive(Debug, Clone, Copy, PartialEq, Eq, Structural)]
pub struct CacheStats {
    pub total: usize,
    pub valid: usize,
    pub expired: usize,
}

/// What a cache answers when it is asked for `path` at `now`: the snapshot
/// under that path, unless there is none or it has outlived `ttl`.
pub open spec fn lookup_at(m: Contents, ttl: u128, path: Seq<char>, now: u128) -> Option<
    Seq<EntryView>,
> {
    if m.contains_key(path) && !is_expired(m[path].cached_at, ttl, now) {
        Some(m[path].entries)
    } else {
        None
    }
}

/// What a cache holds after it was asked for `path` at `now`: a snapshot
/// that was found stale is gone, and nothing else has changed.
pub open spec fn after_lookup(m: Contents, ttl: u128, path: Seq<char>, now: u128) -> Contents {
    if m.contains_key(path) && is_expired(m[path].cached_at, ttl, now) {
        m.remove(path)
    } else {
        m
    }
}

/// Whether the snapshot under `victim` is among the oldest in `m`.
pub open spec fn is_oldest(m: Contents, victim: Seq<char>) -> bool {
    &&& m.contains_key(victim)
    &&& forall|k: Seq<char>| m.contains_key(k) ==> m[victim].cached_at <= (#[trigger] m[k]).cached_at
}

/// Whether `post` is `pre` without one of its oldest snapshots; an empty
/// cache stays as it is.
pub open spec fn evicted(pre: Contents, post: Contents) -> bool {
    if pre.dom().is_empty() {
        post == pre
    } else {
        exists|victim: Seq<char>| #[trigger] is_oldest(pre, victim) && post == pre.remove(victim)
    }
}

/// Whether a cache has to make room before it takes a snapshot for `path`:
/// it is full and `path` is not among its keys.
pub open spec fn must_evict(pre: Contents, path: Seq<char>) -> bool {
    pre.len() >= MAX_CACHE_SIZE && !pre.contains_key(path)
}

/// Whether `post` is what `pre` becomes when `entries` are stored for `path`
/// at `now`. A full cache that has no snapshot for `path` first loses one of
/// its oldest snapshots; which one, among equally old ones, is left open.
pub open spec fn inserted(
    pre: Contents,
    post: Contents,
    path: Seq<char>,
    entries: Seq<EntryView>,
    now: u128,
) -> bool {
    let fresh = Snapshot { entries, cached_at: now };
    if must_evict(pre, path) {
        exists|victim: Seq<char>| #[trigger]
            is_oldest(pre, victim) && post == pre.remove(victim).insert(path, fresh)
    } else {
        post == pre.insert(path, fresh)
    }
}

/// The keys of `m` whose snapshots are still valid at `now`.
pub open spec fn valid_keys(m: Contents, ttl: u128, now: u128) -> Set<Seq<char>> {
    m.dom().filter(|k: Seq<char>| !is_expired(m[k].cached_at, ttl, now))
}

/// A cache is within bounds when it holds finitely many snapshots and no
/// more than `MAX_CACHE_SIZE`.
pub open spec fn within_bounds(m: Contents) -> bool {
    m.dom().finite() && m.len() <= MAX_CACHE_SIZE
}

/// Snapshots of directories by path, each valid for a limited time, and
/// never more than `MAX_CACHE_SIZE` of them.
pub struct DirectoryCache {
    cache: DashMap<String, CachedDirectory>,
    ttl: u128,
    started: Instant,
}

impl View for DirectoryCache {
    type V = Contents;

    closed spec fn view(&self) -> Contents {
        stored(self.cache)
    }
}

impl DirectoryCache {
    /// The time, in nanoseconds, for which a snapshot stays valid.
    pub closed spec fn ttl(&self) -> u128 {
        self.ttl
    }

    #[verifier::type_invariant]
    spec fn bounded(self) -> bool {
        within_bounds(stored(self.cache))
    }

    /// An empty cache whose snapshots stay valid for the default time.
    pub fn new() -> (r: Self)
        ensures
            r@ == Contents::empty(),
            r.ttl() == DEFAULT_TTL_NANOS,
    {
        DirectoryCache { cache: store_new(), ttl: DEFAULT_TTL_NANOS, started: clock_start() }
    }

    /// An empty cache whose snapshots stay valid for `ttl` nanoseconds.
    pub fn with_ttl(ttl: u128) -> (r: Self)
        ensures
            r@ == Contents::empty(),
            r.ttl() == ttl,
    {
        DirectoryCache { cache: store_new(), ttl, started: clock_start() }
    }

    /// The time on this cache's clock, in nanoseconds since it was made.
    pub(crate) fn now(&self) -> u128 {
        clock_read(&self.started)
    }

    /// The snapshot of `path`, read at `now`. A snapshot older than the
    /// time to live counts as absent and is removed.
    pub fn get_at(&mut self, path: &str, now: u128) -> (r: Option<Vec<CachedEntry>>)
        ensures
            r.deep_view() == lookup_at(old(self)@, old(self).ttl(), path@, now),
            final(self)@ == after_lookup(old(self)@, old(self).ttl(), path@, now),
            final(self).ttl() == old(self).ttl(),
            within_bounds(final(self)@),
    {
        proof {
            use_type_invariant(&*self);
        }
        match store_get(&self.cache, path) {
            Some(found) => {
                if found.is_expired(self.ttl, now) {
                    store_remove(&mut self.cache, path);
                    None
                } else {
                    Some(found.entries)
                }
            },
            None => None,
        }
    }

    /// The snapshot of `path`, read at the present time.
    pub fn get(&mut self, path: &str) -> (r: Option<Vec<CachedEntry>>)
        ensures
            exists|now: u128|
                final(self)@ == #[trigger] after_lookup(old(self)@, old(self).ttl(), path@, now)
                    && r.deep_view() == lookup_at(old(self)@, old(self).ttl(), path@, now),
            final(self).ttl() == old(self).ttl(),
            within_bounds(final(self)@),
    {
        let now = self.now();
        self.get_at(path, now)
    }

    /// Removes one of the oldest snapshots, if there is any.
    pub fn evict_oldest(&mut self)
        ensures
            evicted(old(self)@, final(self)@),
            final(self).ttl() == old(self).ttl(),
            within_bounds(final(self)@),
    {
        proof {
            use_type_invariant(&*self);
        }
        let times = store_times(&self.cache);
        if times.len() == 0 {
            assert(self@.dom() =~= Set::empty());
            return ;
        }
        let mut best: usize = 0;
        let mut i: usize = 1;
        while i < times.len()
            invariant
                1 <= i <= times.len(),
                best < i,
                forall|j: int| 0 <= j < i ==> times[best as int].1 <= times[j].1,
            decreases times.len() - i,
        {
            if times[i].1 < times[best].1 {
                best = i;
            }
            i += 1;
        }
        let ghost pre = self@;
        let ghost victim = times[best as int].0@;
        assert(is_oldest(pre, victim)) by {
            assert(pre.contains_key(times[best as int].0@));
            assert forall|k: Seq<char>| pre.contains_key(k) implies pre[victim].cached_at <= (
            #[trigger] pre[k]).cached_at by {
                let j = choose|j: int| 0 <= j < times.len() && #[trigger] times[j].0@ == k;
                assert(pre[times[j].0@].cached_at == times[j].1);
            }
        }
        store_remove(&mut self.cache, times[best].0.as_str());
        assert(!pre.dom().is_empty()) by {
            assert(pre.dom().contains(victim));
        }
    }

    /// Stores `entries` as the snapshot of `path`, taken at `now`, in place
    /// of any earlier one. A full cache first makes room.
    pub fn insert_at(&mut self, path: String, entries: Vec<CachedEntry>, now: u128)
        ensures
            inserted(old(self)@, final(self)@, path@, entries.deep_view(), now),
            final(self).ttl() == old(self).ttl(),
            within_bounds(final(self)@),
    {
        proof {
            use_type_invariant(&*self);
        }
        let ghost pre = self@;
        if store_len(&self.cache) >= MAX_CACHE_SIZE && !store_contains(&self.cache, path.as_str()) {
            self.evict_oldest();
            assert(!pre.dom().is_empty()) by {
                if pre.dom().is_empty() {
                    assert(pre.dom() =~= Set::empty());
                }
            }
            let ghost victim = choose|victim: Seq<char>| #[trigger]
                is_oldest(pre, victim) && self@ == pre.remove(victim);
            assert(is_oldest(pre, victim));
        }
        store_insert(&mut self.cache, path, CachedDirectory { entries, cached_at: now });
    }

    /// Stores `entries` as the snapshot of `path`, taken at the present time.
    pub fn insert(&mut self, path: String, entries: Vec<CachedEntry>)
        ensures
            exists|now: u128| #[trigger]
                inserted(old(self)@, final(self)@, path@, entries.deep_view(), now),
            final(self).ttl() == old(self).ttl(),
            within_bounds(final(self)@),
    {
        let now = self.now();
        self.insert_at(path, entries, now)
    }

    /// Removes the snapshot of `path`, if there is one.
    pub fn invalidate(&mut self, path: &str)
        ensures
            final(self)@ == old(self)@.remove(path@),
            final(self).ttl() == old(self).ttl(),
            within_bounds(final(self)@),
    {
        proof {
            use_type_invariant(&*self);
        }
        store_remove(&mut self.cache, path);
    }

    /// Removes the snapshots of `root` and of every path below it.
    pub fn invalidate_subtree(&mut self, root: &str)
        ensures
            final(self)@ == swept(old(self)@, RetentionView::OutsideOf(root@)),
            final(self).ttl() == old(self).ttl(),
            within_bounds(final(self)@),
    {
        proof {
            use_type_invariant(&*self);
            lemma_swept_within_bounds(self@, RetentionView::OutsideOf(root@));
        }
        let rule = Retention::OutsideOf(root.to_owned());
        store_retain(&mut self.cache, &rule);
    }

    /// Removes every snapshot.
    pub fn clear(&mut self)
        ensures
            final(self)@ == Contents::empty(),
            final(self).ttl() == old(self).ttl(),
    {
        store_clear(&mut self.cache);
    }

    /// Removes the snapshots that have outlived the time to live at `now`.
    pub fn cleanup_expired_at(&mut self, now: u128)
        ensures
            final(self)@ == swept(
                old(self)@,
                RetentionView::FreshAt { ttl: old(self).ttl(), now },
            ),
            final(self).ttl() == old(self).ttl(),
            within_bounds(final(self)@),
    {
        proof {
            use_type_invariant(&*self);
            lemma_swept_within_bounds(self@, RetentionView::FreshAt { ttl: self.ttl, now });
        }
        let rule = Retention::FreshAt { ttl: self.ttl, now };
        store_retain(&mut self.cache, &rule);
    }

    /// The number of snapshots held, and how many of them are valid and how
    /// many have outlived the time to live at `now`.
    pub fn stats_at(&self, now: u128) -> (r: CacheStats)
        ensures
            r.total == self@.len(),
            r.valid == valid_keys(self@, self.ttl(), now).len(),
            r.expired == r.total - r.valid,
    {
        proof {
            use_type_invariant(self);
        }
        let times = store_times(&self.cache);
        let ghost keys = times@.map_values(|pair: (String, u128)| pair.0@);
        let ghost valid_key = |k: Seq<char>| !is_expired(self@[k].cached_at, self.ttl, now);
        let mut valid: usize = 0;
        let mut expired_count: usize = 0;
        let mut i: usize = 0;
        assert(keys.take(0).filter(valid_key).len() == 0) by {
            reveal(Seq::filter);
        }
        while i < times.len()
            invariant
                i <= times.len(),
                keys == times@.map_values(|pair: (String, u128)| pair.0@),
                valid_key == (|k: Seq<char>| !is_expired(self@[k].cached_at, self.ttl, now)),
                forall|j: int|
                    0 <= j < times.len() ==> self@.contains_key(#[trigger] times[j].0@)
                        && self@[times[j].0@].cached_at == times[j].1,
                valid == keys.take(i as int).filter(valid_key).len(),
                valid + expired_count == i,
            decreases times.len() - i,
        {
            proof {
                assert(keys.take(i + 1) =~= keys.take(i as int).push(keys[i as int]));
                keys.take(i as int).lemma_filter_push(keys[i as int], valid_key);
                assert(keys[i as int] == times[i as int].0@);
            }
            if expired(times[i].1, self.ttl, now) {
                expired_count += 1;
            } else {
                valid += 1;
            }
            i += 1;
        }
        proof {
            assert(keys.take(i as int) =~= keys);
            assert(keys.no_duplicates());
            assert(keys.to_set() =~= self@.dom()) by {
                assert forall|k: Seq<char>| self@.dom().contains(k) implies keys.to_set().contains(
                    k,
                ) by {
                    let j = choose|j: int| 0 <= j < times.len() && #[trigger] times[j].0@ == k;
                    assert(keys[j] == k);
                }
                assert forall|k: Seq<char>| keys.to_set().contains(k) implies self@.dom().contains(
                    k,
                ) by {
                    let j = choose|j: int| 0 <= j < keys.len() && keys[j] == k;
                    assert(self@.contains_key(times[j].0@));
                }
            }
            keys.unique_seq_to_set();
            lemma_count_in_set(keys, valid_key);
        }
        CacheStats { total: store_len(&self.cache), valid, expired: expired_count }
    }

    /// The number of snapshots held, and how many of them are valid and how
    /// many have outlived the time to live by now.
    pub fn stats(&self) -> (r: CacheStats)
        ensures
            r.total == self@.len(),
            exists|now: u128| r.valid == (#[trigger] valid_keys(self@, self.ttl(), now)).len(),
            r.expired == r.total - r.valid,
    {
        let now = self.now();
        self.stats_at(now)
    }

    /// Removes the snapshots that have outlived the time to live by now.
    pub fn cleanup_expired(&mut self)
        ensures
            exists|now: u128|
                final(self)@ == #[trigger] swept(
                    old(self)@,
                    RetentionView::FreshAt { ttl: old(self).ttl(), now },
                ),
            final(self).ttl() == old(self).ttl(),
            within_bounds(final(self)@),
    {
        let now = self.now();
        self.cleanup_expired_at(now)
    }
}

/// As many members of a sequence without repetition satisfy a predicate as
/// members of the set of its members do.
pub proof fn lemma_count_in_set(keys: Seq<Seq<char>>, pred: spec_fn(Seq<char>) -> bool)
    requires
        keys.no_duplicates(),
    ensures
        keys.filter(pred).len() == keys.to_set().filter(pred).len(),
    decreases keys.len(),
{
    reveal(Seq::filter);
    if keys.len() == 0 {
        assert(keys.to_set().filter(pred) =~= Set::empty());
    } else {
        let rest = keys.drop_last();
        let k = keys.last();
        lemma_count_in_set(rest, pred);
        vstd::seq_lib::seq_to_set_is_finite(rest);
        assert(!rest.to_set().contains(k));
        assert(keys.to_set() =~= rest.to_set().insert(k)) by {
            assert forall|x: Seq<char>| keys.to_set().contains(x) implies rest.to_set().insert(
                k,
            ).contains(x) by {
                let j = choose|j: int| 0 <= j < keys.len() && keys[j] == x;
                if j < keys.len() - 1 {
                    assert(rest[j] == x);
                }
            }
            assert forall|x: Seq<char>| rest.to_set().insert(k).contains(x) implies keys.to_set(
            ).contains(x) by {
                if x == k {
                    assert(keys[keys.len() - 1] == x);
                } else {
                    let j = choose|j: int| 0 <= j < rest.len() && rest[j] == x;
                    assert(keys[j] == x);
                }
            }
        }
        if pred(k) {
            assert(keys.to_set().filter(pred) =~= rest.to_set().filter(pred).insert(k));
        } else {
            assert(keys.to_set().filter(pred) =~= rest.to_set().filter(pred));
        }
    }
}

/// A snapshot stored at one time is served unchanged at any time at which
/// its age is within the time to live, and counts as absent at any time at
/// which it is older.
pub proof fn lemma_ttl_expiry(
    pre: Contents,
    post: Contents,
    ttl: u128,
    path: Seq<char>,
    entries: Seq<EntryView>,
    stored_at: u128,
    read_at: u128,
)
    requires
        inserted(pre, post, path, entries, stored_at),
    ensures
        age(stored_at, read_at) <= ttl ==> lookup_at(post, ttl, path, read_at) == Some(entries),
        age(stored_at, read_at) > ttl ==> lookup_at(post, ttl, path, read_at) is None,
        age(stored_at, read_at) > ttl ==> !after_lookup(post, ttl, path, read_at).contains_key(
            path,
        ),
{
}

/// Storing a snapshot never takes a cache beyond its bounds, however many
/// distinct paths are stored one after another.
pub proof fn lemma_eviction_bound(
    pre: Contents,
    post: Contents,
    path: Seq<char>,
    entries: Seq<EntryView>,
    now: u128,
)
    requires
        within_bounds(pre),
        inserted(pre, post, path, entries, now),
    ensures
        within_bounds(post),
        post.contains_key(path),
{
    if must_evict(pre, path) {
        let victim = choose|victim: Seq<char>| #[trigger]
            is_oldest(pre, victim) && post == pre.remove(victim).insert(
                path,
                Snapshot { entries, cached_at: now },
            );
        assert(pre.remove(victim).dom() =~= pre.dom().remove(victim));
    }
}

/// Invalidating one path removes its snapshot and no other: what any other
/// path is served stays the same.
pub proof fn lemma_invalidate_exact(
    m: Contents,
    ttl: u128,
    path: Seq<char>,
    other: Seq<char>,
    now: u128,
)
    ensures
        !m.remove(path).contains_key(path),
        lookup_at(m.remove(path), ttl, path, now) is None,
        other != path ==> lookup_at(m.remove(path), ttl, other, now) == lookup_at(
            m,
            ttl,
            other,
            now,
        ),
        m.remove(path).remove(path) == m.remove(path),
{
    assert(m.remove(path).remove(path) =~= m.remove(path));
}

/// Only storing a snapshot brings a path into the cache: a path that was
/// absent stays absent through every read, eviction and sweep, and through
/// the storing of any other path.
pub proof fn lemma_absent_until_stored(
    pre: Contents,
    post: Contents,
    ttl: u128,
    key: Seq<char>,
    path: Seq<char>,
    entries: Seq<EntryView>,
    now: u128,
    rule: RetentionView,
)
    requires
        !pre.contains_key(key),
    ensures
        !after_lookup(pre, ttl, path, now).contains_key(key),
        !pre.remove(path).contains_key(key),
        !swept(pre, rule).contains_key(key),
        evicted(pre, post) ==> !post.contains_key(key),
        inserted(pre, post, path, entries, now) && path != key ==> !post.contains_key(key),
{
}

/// Invalidating a subtree removes the snapshots of exactly the paths that
/// lie within the root, and changes no snapshot that stays.
pub proof fn lemma_invalidate_subtree_exact(m: Contents, root: Seq<char>, path: Seq<char>)
    ensures
        swept(m, RetentionView::OutsideOf(root)).contains_key(path) == (m.contains_key(path)
            && !path_within(path, root)),
        swept(m, RetentionView::OutsideOf(root)).contains_key(path) ==> swept(
            m,
            RetentionView::OutsideOf(root),
        )[path] == m[path],
{
}

/// A sweep leaves a cache within its bounds.
pub proof fn lemma_swept_within_bounds(m: Contents, rule: RetentionView)
    requires
        within_bounds(m),
    ensures
        within_bounds(swept(m, rule)),
{
    let after = swept(m, rule);
    assert(after.dom().subset_of(m.dom()));
    vstd::set_lib::lemma_len_subset(after.dom(), m.dom());
}

impl Default for DirectoryCache {
    fn default() -> (r: Self)
        ensures
            r@ == Contents::empty(),
            r.ttl() == DEFAULT_TTL_NANOS,
    {
        DirectoryCache::new()
    }
}

} // verus!
