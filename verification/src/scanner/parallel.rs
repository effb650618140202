//! Scan policies and the answers of scans: which of the children that a
//! pass over the file system found a policy keeps.

use vstd::prelude::*;
use crate::scanner::cache::{
    after_lookup, inserted, listed_entry, lookup_at, well_formed, CachedEntry, DirectoryCache,
    EntryView,
};
use crate::scanner::store::Contents;

verus! {

/// Name of the file whose presence marks a directory as a project root.
pub const MARKER_FILE: &'static str = "CMakeLists.txt";

/// Most threads that a walk over a whole tree is given.
pub const MAX_WALK_THREADS: usize = 4;

/// The policy of one scan: which children of a directory it keeps.
#[derive(Debug)]
pub struct ScanOptions {
    /// Keep directories alone.
    pub dirs_only: bool,
    /// Keep only the files with one of these extensions; directories are
    /// kept whatever their names.
    pub extensions: Option<Vec<String>>,
    /// Keep hidden children too.
    pub include_hidden: bool,
    /// Probe each directory that is kept for the marker file.
    pub check_cmake: bool,
    /// How deep a walk descends; one level lists the children alone.
    pub max_depth: Option<usize>,
    /// Leave out what the ignore files of version control exclude.
    pub respect_gitignore: bool,
}

/// What a `ScanOptions` holds, as mathematical values.
pub struct PolicyView {
    pub dirs_only: bool,
    pub extensions: Option<Seq<Seq<char>>>,
    pub include_hidden: bool,
    pub check_cmake: bool,
    pub max_depth: Option<usize>,
    pub respect_gitignore: bool,
}

impl View for ScanOptions {
    type V = PolicyView;

    open spec fn view(&self) -> PolicyView {
        PolicyView {
            dirs_only: self.dirs_only,
            extensions: self.extensions.deep_view(),
            include_hidden: self.include_hidden,
            check_cmake: self.check_cmake,
            max_depth: self.max_depth,
            respect_gitignore: self.respect_gitignore,
        }
    }
}

/// The policy that keeps every visible child, to any depth, and honours no
/// ignore file.
pub open spec fn default_policy() -> PolicyView {
    PolicyView {
        dirs_only: false,
        extensions: None,
        include_hidden: false,
        check_cmake: false,
        max_depth: None,
        respect_gitignore: false,
    }
}

/// Visible subdirectories, each probed for the marker file.
pub open spec fn subdirectory_policy() -> PolicyView {
    PolicyView {
        dirs_only: true,
        extensions: None,
        include_hidden: false,
        check_cmake: true,
        max_depth: Some(1usize),
        respect_gitignore: true,
    }
}

/// Visible subdirectories and files that an include statement can name.
pub open spec fn include_policy() -> PolicyView {
    PolicyView {
        dirs_only: false,
        extensions: Some(seq!["cmake"@]),
        include_hidden: false,
        check_cmake: false,
        max_depth: Some(1usize),
        respect_gitignore: true,
    }
}

/// The extensions of the files that count as sources.
pub open spec fn source_extensions() -> Seq<Seq<char>> {
    seq![
        "c"@,
        "cc"@,
        "cpp"@,
        "cxx"@,
        "c++"@,
        "h"@,
        "hh"@,
        "hpp"@,
        "hxx"@,
        "h++"@,
        "m"@,
        "mm"@,
        "cu"@,
        "cuh"@,
        "asm"@,
        "s"@,
        "f"@,
        "f90"@,
        "f95"@,
        "for"@,
        "rc"@,
    ]
}

/// Visible subdirectories and source files.
pub open spec fn source_files_policy() -> PolicyView {
    PolicyView {
        dirs_only: false,
        extensions: Some(source_extensions()),
        include_hidden: false,
        check_cmake: false,
        max_depth: Some(1usize),
        respect_gitignore: true,
    }
}

/// Every visible child.
pub open spec fn any_file_policy() -> PolicyView {
    PolicyView {
        dirs_only: false,
        extensions: None,
        include_hidden: false,
        check_cmake: false,
        max_depth: Some(1usize),
        respect_gitignore: true,
    }
}

/// Visible subdirectories, without a probe for the marker file.
pub open spec fn directory_policy() -> PolicyView {
    PolicyView {
        dirs_only: true,
        extensions: None,
        include_hidden: false,
        check_cmake: false,
        max_depth: Some(1usize),
        respect_gitignore: true,
    }
}

/// Whether a policy keeps an entry. A hidden entry needs `include_hidden`;
/// under `dirs_only` only directories pass; a file needs an extension from the
/// list where there is one, which never excludes a directory.
pub open spec fn policy_accepts(p: PolicyView, e: EntryView) -> bool {
    &&& e.is_hidden ==> p.include_hidden
    &&& p.dirs_only ==> e.is_dir
    &&& (p.extensions is Some && !e.is_dir) ==> (e.extension is Some
        && p.extensions->0.contains(e.extension->0))
}

/// `policy_accepts` as a predicate on entries.
pub open spec fn accepted_by(p: PolicyView) -> spec_fn(EntryView) -> bool {
    |e: EntryView| policy_accepts(p, e)
}

/// Whether `item` occurs in `list`.
pub fn contains_text(list: &Vec<String>, item: &String) -> (r: bool)
    ensures
        r == list.deep_view().contains(item@),
{
    let mut i: usize = 0;
    while i < list.len()
        invariant
            i <= list.len(),
            forall|j: int| 0 <= j < i ==> list.deep_view()[j] != item@,
        decreases list.len() - i,
    {
        if list[i] == *item {
            assert(list.deep_view()[i as int] == item@);
            return true;
        }
        i += 1;
    }
    false
}

impl Default for ScanOptions {
    fn default() -> (r: Self)
        ensures
            r@ == default_policy(),
    {
        ScanOptions {
            dirs_only: false,
            extensions: None,
            include_hidden: false,
            check_cmake: false,
            max_depth: None,
            respect_gitignore: false,
        }
    }
}

impl Clone for ScanOptions {
    fn clone(&self) -> (r: Self)
        ensures
            r@ == self@,
    {
        let extensions = match &self.extensions {
            Some(list) => {
                let mut copy: Vec<String> = Vec::new();
                let mut i: usize = 0;
                while i < list.len()
                    invariant
                        i <= list.len(),
                        copy.len() == i,
                        forall|j: int| 0 <= j < i ==> copy[j]@ == list[j]@,
                    decreases list.len() - i,
                {
                    copy.push(list[i].clone());
                    i += 1;
                }
                assert(copy.deep_view() =~= list.deep_view());
                Some(copy)
            },
            None => None,
        };
        ScanOptions {
            dirs_only: self.dirs_only,
            extensions,
            include_hidden: self.include_hidden,
            check_cmake: self.check_cmake,
            max_depth: self.max_depth,
            respect_gitignore: self.respect_gitignore,
        }
    }
}

impl ScanOptions {
    /// The policy for choosing a subdirectory to descend into.
    pub fn for_subdirectory() -> (r: Self)
        ensures
            r@ == subdirectory_policy(),
    {
        ScanOptions {
            dirs_only: true,
            extensions: None,
            include_hidden: false,
            check_cmake: true,
            max_depth: Some(1),
            respect_gitignore: true,
        }
    }

    /// The policy for choosing a file to include.
    pub fn for_include() -> (r: Self)
        ensures
            r@ == include_policy(),
    {
        let mut extensions: Vec<String> = Vec::new();
        extensions.push("cmake".to_owned());
        assert(extensions.deep_view() =~= seq!["cmake"@]);
        ScanOptions {
            dirs_only: false,
            extensions: Some(extensions),
            include_hidden: false,
            check_cmake: false,
            max_depth: Some(1),
            respect_gitignore: true,
        }
    }

    /// The policy for choosing a source file.
    pub fn for_source_files() -> (r: Self)
        ensures
            r@ == source_files_policy(),
    {
        let mut extensions: Vec<String> = Vec::new();
        extensions.push("c".to_owned());
        extensions.push("cc".to_owned());
        extensions.push("cpp".to_owned());
        extensions.push("cxx".to_owned());
        extensions.push("c++".to_owned());
        extensions.push("h".to_owned());
        extensions.push("hh".to_owned());
        extensions.push("hpp".to_owned());
        extensions.push("hxx".to_owned());
        extensions.push("h++".to_owned());
        extensions.push("m".to_owned());
        extensions.push("mm".to_owned());
        extensions.push("cu".to_owned());
        extensions.push("cuh".to_owned());
        extensions.push("asm".to_owned());
        extensions.push("s".to_owned());
        extensions.push("f".to_owned());
        extensions.push("f90".to_owned());
        extensions.push("f95".to_owned());
        extensions.push("for".to_owned());
        extensions.push("rc".to_owned());
        assert(extensions.deep_view() =~= source_extensions());
        ScanOptions {
            dirs_only: false,
            extensions: Some(extensions),
            include_hidden: false,
            check_cmake: false,
            max_depth: Some(1),
            respect_gitignore: true,
        }
    }

    /// The policy for choosing any file.
    pub fn for_any_file() -> (r: Self)
        ensures
            r@ == any_file_policy(),
    {
        ScanOptions {
            dirs_only: false,
            extensions: None,
            include_hidden: false,
            check_cmake: false,
            max_depth: Some(1),
            respect_gitignore: true,
        }
    }

    /// The policy for choosing a directory.
    pub fn for_directory() -> (r: Self)
        ensures
            r@ == directory_policy(),
    {
        ScanOptions {
            dirs_only: true,
            extensions: None,
            include_hidden: false,
            check_cmake: false,
            max_depth: Some(1),
            respect_gitignore: true,
        }
    }

    /// Whether this policy keeps `entry`.
    pub fn accepts(&self, entry: &CachedEntry) -> (r: bool)
        ensures
            r == policy_accepts(self@, entry@),
    {
        if entry.is_hidden && !self.include_hidden {
            return false;
        }
        if self.dirs_only && !entry.is_dir {
            return false;
        }
        if entry.is_dir {
            return true;
        }
        match &self.extensions {
            Some(allowed) => match &entry.extension {
                Some(extension) => contains_text(allowed, extension),
                None => false,
            },
            None => true,
        }
    }
}

/// One child that a pass over a directory came upon.
#[derive(Debug)]
pub struct WalkedEntry {
    /// Where the child lies.
    pub path: String,
    /// The last component of `path`.
    pub name: String,
    pub is_dir: bool,
    /// Whether a probe found the marker file directly inside the child.
    pub has_marker: bool,
}

/// What a `WalkedEntry` holds, as mathematical values.
pub struct WalkedView {
    pub path: Seq<char>,
    pub name: Seq<char>,
    pub is_dir: bool,
    pub has_marker: bool,
}

impl View for WalkedEntry {
    type V = WalkedView;

    open spec fn view(&self) -> WalkedView {
        WalkedView {
            path: self.path@,
            name: self.name@,
            is_dir: self.is_dir,
            has_marker: self.has_marker,
        }
    }
}

impl DeepView for WalkedEntry {
    type V = WalkedView;

    open spec fn deep_view(&self) -> WalkedView {
        self@
    }
}

/// What one pass over a directory found: whether the target is a directory
/// at all, and the children that the pass came upon, in its order.
#[derive(Debug)]
pub struct DirListing {
    pub is_directory: bool,
    pub entries: Vec<WalkedEntry>,
}

/// What a `DirListing` holds, as mathematical values.
pub struct ListingView {
    pub is_directory: bool,
    pub entries: Seq<WalkedView>,
}

impl View for DirListing {
    type V = ListingView;

    open spec fn view(&self) -> ListingView {
        ListingView { is_directory: self.is_directory, entries: self.entries.deep_view() }
    }
}

/// How the walker is set up for one pass. A field that is `None` leaves the
/// walker's own default in place.
#[derive(Debug, Clone, Copy, PartialEq, Eq, Structural)]
pub struct WalkPlan {
    pub max_depth: Option<usize>,
    pub skip_hidden: bool,
    pub git_ignore: bool,
    pub git_global: Option<bool>,
    pub git_exclude: Option<bool>,
    pub threads: Option<usize>,
}

/// The number of threads for a walk over a whole tree on a machine with
/// `cpus` processors.
pub open spec fn tree_walk_threads(cpus: usize) -> usize {
    if cpus < MAX_WALK_THREADS {
        cpus
    } else {
        MAX_WALK_THREADS
    }
}

/// The entry that a scan makes of a walked child; it carries the marker flag
/// only where the scan checks for the marker.
pub open spec fn walked_entry(w: WalkedView, check_marker: bool) -> EntryView {
    listed_entry(w.name, w.is_dir, check_marker && w.has_marker)
}

/// `walked_entry` as a function of the child.
pub open spec fn as_entry(check_marker: bool) -> spec_fn(WalkedView) -> EntryView {
    |w: WalkedView| walked_entry(w, check_marker)
}

/// Whether a scan of `dir` keeps a walked child: the directory itself is not
/// its own child, and the policy has to accept the entry.
pub open spec fn kept_in_walk(dir: Seq<char>, p: PolicyView) -> spec_fn(WalkedView) -> bool {
    |w: WalkedView| w.path != dir && policy_accepts(p, walked_entry(w, p.check_cmake))
}

/// Whether a walk over a whole tree keeps a child.
pub open spec fn kept_in_tree(p: PolicyView) -> spec_fn(WalkedView) -> bool {
    |w: WalkedView| policy_accepts(p, walked_entry(w, p.check_cmake))
}

/// The answer of a filtered scan of `dir` whose walk found `listing`.
pub open spec fn walk_result(dir: Seq<char>, listing: ListingView, p: PolicyView) -> Seq<
    EntryView,
> {
    if listing.is_directory {
        listing.entries.filter(kept_in_walk(dir, p)).map_values(as_entry(p.check_cmake))
    } else {
        Seq::empty()
    }
}

/// The unfiltered snapshot of a directory whose plain listing is `listing`.
pub open spec fn full_result(listing: ListingView) -> Seq<EntryView> {
    if listing.is_directory {
        listing.entries.map_values(as_entry(true))
    } else {
        Seq::empty()
    }
}

/// A walked child's path with its entry.
pub open spec fn as_located(check_marker: bool) -> spec_fn(WalkedView) -> (Seq<char>, EntryView) {
    |w: WalkedView| (w.path, walked_entry(w, check_marker))
}

/// The answer of a walk over a whole tree that found `listing`.
pub open spec fn tree_result(listing: ListingView, p: PolicyView) -> Seq<(Seq<char>, EntryView)> {
    if listing.is_directory {
        listing.entries.filter(kept_in_tree(p)).map_values(as_located(p.check_cmake))
    } else {
        Seq::empty()
    }
}

/// The paths and entries of a result, as mathematical values.
pub open spec fn located_view(v: Seq<(String, CachedEntry)>) -> Seq<(Seq<char>, EntryView)> {
    v.map_values(|pair: (String, CachedEntry)| (pair.0@, pair.1@))
}

impl ScanOptions {
    /// Whether a pass has to probe a child for the marker file: only a
    /// directory that this policy keeps, and only where the policy checks.
    pub fn wants_marker(&self, name: &str, is_dir: bool) -> (r: bool)
        ensures
            r == (is_dir && self@.check_cmake && policy_accepts(
                self@,
                listed_entry(name@, is_dir, false),
            )),
    {
        if !is_dir || !self.check_cmake {
            return false;
        }
        let entry = CachedEntry::from_listing(name.to_owned(), is_dir, false);
        self.accepts(&entry)
    }

    /// The walker's set-up for a filtered scan of one directory.
    pub fn walk_plan(&self) -> (r: WalkPlan)
        ensures
            r.max_depth == self@.max_depth,
            r.skip_hidden == !self@.include_hidden,
            r.git_ignore == self@.respect_gitignore,
            r.git_global == Some(self@.respect_gitignore),
            r.git_exclude == Some(self@.respect_gitignore),
            r.threads is None,
    {
        WalkPlan {
            max_depth: self.max_depth,
            skip_hidden: !self.include_hidden,
            git_ignore: self.respect_gitignore,
            git_global: Some(self.respect_gitignore),
            git_exclude: Some(self.respect_gitignore),
            threads: None,
        }
    }

    /// The walker's set-up for a walk over a whole tree on a machine with
    /// `cpus` processors.
    pub fn tree_walk_plan(&self, cpus: usize) -> (r: WalkPlan)
        ensures
            r.max_depth == self@.max_depth,
            r.skip_hidden == !self@.include_hidden,
            r.git_ignore == self@.respect_gitignore,
            r.git_global is None,
            r.git_exclude is None,
            r.threads == Some(tree_walk_threads(cpus)),
    {
        let threads = if cpus < MAX_WALK_THREADS {
            cpus
        } else {
            MAX_WALK_THREADS
        };
        WalkPlan {
            max_depth: self.max_depth,
            skip_hidden: !self.include_hidden,
            git_ignore: self.respect_gitignore,
            git_global: None,
            git_exclude: None,
            threads: Some(threads),
        }
    }
}

/// The entries of `entries` that `options` keeps, in their order.
pub fn filter_entries(entries: Vec<CachedEntry>, options: &ScanOptions) -> (r: Vec<CachedEntry>)
    ensures
        r.deep_view() == entries.deep_view().filter(accepted_by(options@)),
{
    broadcast use Seq::lemma_filter_push;

    let ghost all = entries.deep_view();
    let ghost keep = accepted_by(options@);
    let mut out: Vec<CachedEntry> = Vec::new();
    let mut i: usize = 0;
    assert(all.take(0).filter(keep) =~= Seq::<EntryView>::empty()) by {
        reveal(Seq::filter);
    }
    assert(out.deep_view() =~= Seq::<EntryView>::empty());
    while i < entries.len()
        invariant
            i <= entries.len(),
            all == entries.deep_view(),
            keep == accepted_by(options@),
            out.deep_view() == all.take(i as int).filter(keep),
        decreases entries.len() - i,
    {
        let ghost before = out.deep_view();
        proof {
            let x = entries[i as int]@;
            assert(all.take(i + 1) =~= all.take(i as int).push(x));
            all.take(i as int).lemma_filter_push(x, keep);
        }
        if options.accepts(&entries[i]) {
            out.push(entries[i].clone());
            assert(out.deep_view() =~= before.push(entries[i as int]@));
        }
        i += 1;
    }
    assert(all.take(i as int) =~= all);
    out
}

/// The answer of a filtered scan of `dir`, from what its walk found: the
/// children that the policy keeps, in the walk's order, and nothing where the
/// target is no directory.
pub fn scan_directory_internal(dir: &str, listing: &DirListing, options: &ScanOptions) -> (r: Vec<
    CachedEntry,
>)
    ensures
        r.deep_view() == walk_result(dir@, listing@, options@),
{
    broadcast use {Seq::lemma_filter_push, Seq::lemma_push_map_commute};

    let mut entries: Vec<CachedEntry> = Vec::new();
    if !listing.is_directory {
        assert(entries.deep_view() =~= Seq::<EntryView>::empty());
        return entries;
    }
    let ghost all = listing.entries.deep_view();
    let ghost keep = kept_in_walk(dir@, options@);
    let ghost make = as_entry(options@.check_cmake);
    let root = dir.to_owned();
    let mut i: usize = 0;
    assert(all.take(0).filter(keep).map_values(make) =~= Seq::<EntryView>::empty()) by {
        reveal(Seq::filter);
    }
    assert(entries.deep_view() =~= Seq::<EntryView>::empty());
    while i < listing.entries.len()
        invariant
            i <= listing.entries.len(),
            root@ == dir@,
            all == listing.entries.deep_view(),
            keep == kept_in_walk(dir@, options@),
            make == as_entry(options@.check_cmake),
            entries.deep_view() == all.take(i as int).filter(keep).map_values(make),
        decreases listing.entries.len() - i,
    {
        let ghost before = entries.deep_view();
        let walked = &listing.entries[i];
        proof {
            let kept = all.take(i as int).filter(keep);
            assert(all.take(i + 1) =~= all.take(i as int).push(walked@));
            all.take(i as int).lemma_filter_push(walked@, keep);
            kept.lemma_push_map_commute(make, walked@);
        }
        if walked.path != root {
            let entry = CachedEntry::from_listing(
                walked.name.clone(),
                walked.is_dir,
                options.check_cmake && walked.has_marker,
            );
            if options.accepts(&entry) {
                entries.push(entry);
                assert(entries.deep_view() =~= before.push(make(walked@)));
            }
        }
        i += 1;
    }
    assert(all.take(i as int) =~= all);
    entries
}

/// The unfiltered snapshot of a directory, from its plain listing: every
/// child, each directory probed for the marker file.
pub fn scan_directory_full(listing: &DirListing) -> (r: Vec<CachedEntry>)
    ensures
        r.deep_view() == full_result(listing@),
{
    let mut entries: Vec<CachedEntry> = Vec::new();
    if !listing.is_directory {
        assert(entries.deep_view() =~= Seq::<EntryView>::empty());
        return entries;
    }
    let mut i: usize = 0;
    while i < listing.entries.len()
        invariant
            i <= listing.entries.len(),
            entries.len() == i,
            forall|j: int| 0 <= j < i ==> entries[j]@ == walked_entry(listing.entries[j]@, true),
        decreases listing.entries.len() - i,
    {
        let walked = &listing.entries[i];
        entries.push(CachedEntry::from_listing(walked.name.clone(), walked.is_dir, walked.has_marker));
        i += 1;
    }
    assert(entries.deep_view() =~= full_result(listing@));
    entries
}

/// The answer of a walk over a whole tree, from what the walk found: each
/// child that the policy keeps, with its path.
pub fn scan_directory_recursive(listing: &DirListing, options: &ScanOptions) -> (r: Vec<
    (String, CachedEntry),
>)
    ensures
        located_view(r@) == tree_result(listing@, options@),
{
    broadcast use {Seq::lemma_filter_push, Seq::lemma_push_map_commute};

    let mut found: Vec<(String, CachedEntry)> = Vec::new();
    if !listing.is_directory {
        assert(located_view(found@) =~= Seq::<(Seq<char>, EntryView)>::empty());
        return found;
    }
    let ghost all = listing.entries.deep_view();
    let ghost keep = kept_in_tree(options@);
    let ghost make = as_located(options@.check_cmake);
    let mut i: usize = 0;
    assert(all.take(0).filter(keep).map_values(make) =~= Seq::<(Seq<char>, EntryView)>::empty())
        by {
        reveal(Seq::filter);
    }
    assert(located_view(found@) =~= Seq::<(Seq<char>, EntryView)>::empty());
    while i < listing.entries.len()
        invariant
            i <= listing.entries.len(),
            all == listing.entries.deep_view(),
            keep == kept_in_tree(options@),
            make == as_located(options@.check_cmake),
            located_view(found@) == all.take(i as int).filter(keep).map_values(make),
        decreases listing.entries.len() - i,
    {
        let ghost before = located_view(found@);
        let walked = &listing.entries[i];
        proof {
            let kept = all.take(i as int).filter(keep);
            assert(all.take(i + 1) =~= all.take(i as int).push(walked@));
            all.take(i as int).lemma_filter_push(walked@, keep);
            kept.lemma_push_map_commute(make, walked@);
        }
        let entry = CachedEntry::from_listing(
            walked.name.clone(),
            walked.is_dir,
            options.check_cmake && walked.has_marker,
        );
        if options.accepts(&entry) {
            found.push((walked.path.clone(), entry));
            assert(located_view(found@) =~= before.push(make(walked@)));
        }
        i += 1;
    }
    assert(all.take(i as int) =~= all);
    found
}

/// What a scan can answer from the cache at `now`, without a look at the
/// file system: nothing is listed under a target that is no directory, and a
/// valid snapshot answers with the entries that the policy keeps. `None`
/// stands for a miss.
pub open spec fn cached_answer(
    m: Contents,
    ttl: u128,
    dir: Seq<char>,
    is_directory: bool,
    p: PolicyView,
    now: u128,
) -> Option<Seq<EntryView>> {
    if !is_directory {
        Some(Seq::empty())
    } else {
        match lookup_at(m, ttl, dir, now) {
            Some(snapshot) => Some(snapshot.filter(accepted_by(p))),
            None => None,
        }
    }
}

/// What the cache holds after a scan consulted it at `now`.
pub open spec fn after_consulting(
    m: Contents,
    ttl: u128,
    dir: Seq<char>,
    is_directory: bool,
    now: u128,
) -> Contents {
    if is_directory {
        after_lookup(m, ttl, dir, now)
    } else {
        m
    }
}

/// The first half of a scan, with the clock at `now`: the answer, where the
/// cache can give it, or `None` where the file system has to be walked.
pub fn scan_directory_at(
    cache: &mut DirectoryCache,
    dir: &str,
    is_directory: bool,
    options: &ScanOptions,
    now: u128,
) -> (r: Option<Vec<CachedEntry>>)
    ensures
        r.deep_view() == cached_answer(
            old(cache)@,
            old(cache).ttl(),
            dir@,
            is_directory,
            options@,
            now,
        ),
        final(cache)@ == after_consulting(old(cache)@, old(cache).ttl(), dir@, is_directory, now),
        final(cache).ttl() == old(cache).ttl(),
{
    if !is_directory {
        let nothing: Vec<CachedEntry> = Vec::new();
        assert(nothing.deep_view() =~= Seq::<EntryView>::empty());
        return Some(nothing);
    }
    match cache.get_at(dir, now) {
        Some(snapshot) => Some(filter_entries(snapshot, options)),
        None => None,
    }
}

/// The first half of a scan: the answer, where the cache can give it at the
/// present time, or `None` where the file system has to be walked.
pub fn scan_directory(
    cache: &mut DirectoryCache,
    dir: &str,
    is_directory: bool,
    options: &ScanOptions,
) -> (r: Option<Vec<CachedEntry>>)
    ensures
        exists|now: u128|
            final(cache)@ == #[trigger] after_consulting(
                old(cache)@,
                old(cache).ttl(),
                dir@,
                is_directory,
                now,
            ) && r.deep_view() == cached_answer(
                old(cache)@,
                old(cache).ttl(),
                dir@,
                is_directory,
                options@,
                now,
            ),
        final(cache).ttl() == old(cache).ttl(),
{
    let now = cache.now();
    scan_directory_at(cache, dir, is_directory, options, now)
}

/// The second half of a scan after a miss, with the clock at `now`: answers
/// from the filtered walk and stores the plain listing as the snapshot of
/// `dir`.
pub fn complete_scan_at(
    cache: &mut DirectoryCache,
    dir: &str,
    walk: &DirListing,
    full: &DirListing,
    options: &ScanOptions,
    now: u128,
) -> (r: Vec<CachedEntry>)
    ensures
        r.deep_view() == walk_result(dir@, walk@, options@),
        inserted(old(cache)@, final(cache)@, dir@, full_result(full@), now),
        final(cache).ttl() == old(cache).ttl(),
{
    let entries = scan_directory_internal(dir, walk, options);
    let snapshot = scan_directory_full(full);
    cache.insert_at(dir.to_owned(), snapshot, now);
    entries
}

/// The second half of a scan after a miss: answers from the filtered walk
/// and stores the plain listing as the snapshot of `dir`, taken now.
pub fn complete_scan(
    cache: &mut DirectoryCache,
    dir: &str,
    walk: &DirListing,
    full: &DirListing,
    options: &ScanOptions,
) -> (r: Vec<CachedEntry>)
    ensures
        r.deep_view() == walk_result(dir@, walk@, options@),
        exists|now: u128| #[trigger]
            inserted(old(cache)@, final(cache)@, dir@, full_result(full@), now),
        final(cache).ttl() == old(cache).ttl(),
{
    let now = cache.now();
    complete_scan_at(cache, dir, walk, full, options, now)
}

/// Every entry that a scan makes of a listing is well formed.
pub proof fn lemma_scans_are_well_formed(
    dir: Seq<char>,
    listing: ListingView,
    p: PolicyView,
    i: int,
)
    ensures
        0 <= i < walk_result(dir, listing, p).len() ==> well_formed(walk_result(dir, listing, p)[i]),
        0 <= i < full_result(listing).len() ==> well_formed(full_result(listing)[i]),
        0 <= i < tree_result(listing, p).len() ==> well_formed(tree_result(listing, p)[i].1),
{
}

/// Whatever a scan answers, from a walk or from the cache, its policy
/// accepts.
pub proof fn lemma_scan_answers_obey_policy(
    m: Contents,
    ttl: u128,
    dir: Seq<char>,
    listing: ListingView,
    p: PolicyView,
    now: u128,
    i: int,
)
    ensures
        0 <= i < walk_result(dir, listing, p).len() ==> policy_accepts(
            p,
            walk_result(dir, listing, p)[i],
        ),
        0 <= i < tree_result(listing, p).len() ==> policy_accepts(p, tree_result(listing, p)[i].1),
        cached_answer(m, ttl, dir, true, p, now) matches Some(answer) ==> (0 <= i < answer.len()
            ==> policy_accepts(p, answer[i])),
{
    if listing.is_directory {
        if 0 <= i < walk_result(dir, listing, p).len() {
            listing.entries.lemma_filter_pred(kept_in_walk(dir, p), i);
        }
        if 0 <= i < tree_result(listing, p).len() {
            listing.entries.lemma_filter_pred(kept_in_tree(p), i);
        }
    }
    if let Some(snapshot) = lookup_at(m, ttl, dir, now) {
        if 0 <= i < snapshot.filter(accepted_by(p)).len() {
            snapshot.lemma_filter_pred(accepted_by(p), i);
        }
    }
}

/// The children that a policy keeps of a listing are those whose entries it
/// accepts, where the listing does not hold the directory itself.
pub proof fn lemma_walk_is_filtered_listing(dir: Seq<char>, children: Seq<WalkedView>, p: PolicyView)
    requires
        forall|i: int| 0 <= i < children.len() ==> (#[trigger] children[i]).path != dir,
    ensures
        children.filter(kept_in_walk(dir, p)).map_values(as_entry(p.check_cmake))
            == children.map_values(as_entry(p.check_cmake)).filter(accepted_by(p)),
    decreases children.len(),
{
    broadcast use {Seq::lemma_filter_push, Seq::lemma_push_map_commute};

    reveal(Seq::filter);
    let keep = kept_in_walk(dir, p);
    let make = as_entry(p.check_cmake);
    if children.len() == 0 {
        assert(children.filter(keep).map_values(make) =~= children.map_values(make).filter(
            accepted_by(p),
        ));
    } else {
        let rest = children.drop_last();
        let last = children.last();
        assert forall|i: int| 0 <= i < rest.len() implies (#[trigger] rest[i]).path != dir by {
            assert(rest[i] == children[i]);
        }
        lemma_walk_is_filtered_listing(dir, rest, p);
        assert(children =~= rest.push(last));
        rest.lemma_filter_push(last, keep);
        rest.filter(keep).lemma_push_map_commute(make, last);
        rest.lemma_push_map_commute(make, last);
        rest.map_values(make).lemma_filter_push(make(last), accepted_by(p));
        assert(last == children[children.len() - 1]);
    }
}

/// A miss and the hit that follows it agree where both passes found the
/// same children and the policy checks for the marker: the answer of the
/// miss is the stored snapshot as the policy filters it. A policy that does
/// not check for the marker is served the marker flags of the snapshot on a
/// hit, and none on a miss.
pub proof fn lemma_miss_agrees_with_hit(dir: Seq<char>, listing: ListingView, p: PolicyView)
    requires
        p.check_cmake,
        forall|i: int| 0 <= i < listing.entries.len() ==> (#[trigger] listing.entries[i]).path != dir,
    ensures
        walk_result(dir, listing, p) == full_result(listing).filter(accepted_by(p)),
{
    if listing.is_directory {
        lemma_walk_is_filtered_listing(dir, listing.entries, p);
    } else {
        reveal(Seq::filter);
        assert(Seq::<EntryView>::empty().filter(accepted_by(p)) =~= Seq::<EntryView>::empty());
    }
}

/// Filtering twice by one policy keeps what filtering once keeps.
pub proof fn lemma_filter_idempotent(entries: Seq<EntryView>, p: PolicyView)
    ensures
        entries.filter(accepted_by(p)).filter(accepted_by(p)) == entries.filter(accepted_by(p)),
    decreases entries.len(),
{
    broadcast use Seq::lemma_filter_push;

    reveal(Seq::filter);
    if entries.len() > 0 {
        lemma_filter_idempotent(entries.drop_last(), p);
    }
}

/// The list of extensions never excludes a directory: a policy keeps a
/// directory exactly when it would keep it without the list.
pub proof fn lemma_extensions_spare_directories(p: PolicyView, e: EntryView)
    requires
        e.is_dir,
    ensures
        policy_accepts(p, e) == policy_accepts(PolicyView { extensions: None, ..p }, e),
{
}

} // verus!
