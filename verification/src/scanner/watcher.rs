//! The watcher: which changes in the file system invalidate which
//! snapshots, and the states that a watcher goes through.

use vstd::prelude::*;
use crate::paths::{join, parent, path_joined, path_parent, path_within};
use crate::scanner::cache::DirectoryCache;
use crate::scanner::store::{swept, Contents, RetentionView};

verus! {

/// What was created.
#[derive(Debug, Clone, Copy, PartialEq, Eq, Structural)]
pub enum CreateKind {
    Any,
    File,
    Folder,
    Other,
}

/// What was removed.
#[derive(Debug, Clone, Copy, PartialEq, Eq, Structural)]
pub enum RemoveKind {
    Any,
    File,
    Folder,
    Other,
}

/// Which side of a rename an event reports.
#[derive(Debug, Clone, Copy, PartialEq, Eq, Structural)]
pub enum RenameMode {
    Any,
    To,
    From,
    Both,
    Other,
}

/// What was modified.
#[derive(Debug, Clone, Copy, PartialEq, Eq, Structural)]
pub enum ModifyKind {
    Any,
    Data,
    Metadata,
    Name(RenameMode),
    Other,
}

/// The kind of a change in the file system.
#[derive(Debug, Clone, Copy, PartialEq, Eq, Structural)]
pub enum EventKind {
    Any,
    Access,
    Create(CreateKind),
    Modify(ModifyKind),
    Remove(RemoveKind),
    Other,
}

/// A change in the file system and the paths that it touched.
#[derive(Debug)]
pub struct FsEvent {
    pub kind: EventKind,
    pub paths: Vec<String>,
}

/// What an `FsEvent` holds, as mathematical values.
pub struct EventView {
    pub kind: EventKind,
    pub paths: Seq<Seq<char>>,
}

impl View for FsEvent {
    type V = EventView;

    open spec fn view(&self) -> EventView {
        EventView { kind: self.kind, paths: self.paths.deep_view() }
    }
}

/// A request to the watcher.
#[derive(Debug)]
pub enum WatchCommand {
    Watch(String),
    Unwatch(String),
    Shutdown,
}

/// What a `WatchCommand` holds, as mathematical values.
pub enum CommandView {
    Watch(Seq<char>),
    Unwatch(Seq<char>),
    Shutdown,
}

impl View for WatchCommand {
    type V = CommandView;

    open spec fn view(&self) -> CommandView {
        match self {
            WatchCommand::Watch(path) => CommandView::Watch(path@),
            WatchCommand::Unwatch(path) => CommandView::Unwatch(path@),
            WatchCommand::Shutdown => CommandView::Shutdown,
        }
    }
}

impl DeepView for WatchCommand {
    type V = CommandView;

    open spec fn deep_view(&self) -> CommandView {
        self@
    }
}

/// Where a watcher stands in its life. `ShutDown` is final.
#[derive(Debug, Clone, Copy, PartialEq, Eq, Structural)]
pub enum WatcherState {
    Uninitialized,
    Running,
    ShutDown,
}

/// What reaches the watcher's loop.
#[derive(Debug)]
pub enum WatcherInput {
    /// An attempt to start, with the outcome of subscribing to the system's
    /// notifications.
    Init { subscribed: bool },
    Command(WatchCommand),
    Event(FsEvent),
    /// Both queues are closed.
    Closed,
}

/// What an input is, as mathematical values.
pub enum InputView {
    Init { subscribed: bool },
    Command(CommandView),
    Event(EventView),
    Closed,
}

impl View for WatcherInput {
    type V = InputView;

    open spec fn view(&self) -> InputView {
        match self {
            WatcherInput::Init { subscribed } => InputView::Init { subscribed: *subscribed },
            WatcherInput::Command(command) => InputView::Command(command@),
            WatcherInput::Event(event) => InputView::Event(event@),
            WatcherInput::Closed => InputView::Closed,
        }
    }
}

/// What the loop has to do to the system's subscription after a step.
#[derive(Debug)]
pub enum WatcherAction {
    Nothing,
    /// Watch this one directory, not what lies below it.
    Subscribe(String),
    Unsubscribe(String),
    /// Leave the loop and drop every subscription.
    Stop,
}

/// What a `WatcherAction` holds, as mathematical values.
pub enum ActionView {
    Nothing,
    Subscribe(Seq<char>),
    Unsubscribe(Seq<char>),
    Stop,
}

impl View for WatcherAction {
    type V = ActionView;

    open spec fn view(&self) -> ActionView {
        match self {
            WatcherAction::Nothing => ActionView::Nothing,
            WatcherAction::Subscribe(path) => ActionView::Subscribe(path@),
            WatcherAction::Unsubscribe(path) => ActionView::Unsubscribe(path@),
            WatcherAction::Stop => ActionView::Stop,
        }
    }
}

/// Whether an event of this kind can change what a directory lists: a file
/// or folder was created or removed, or something was renamed.
pub open spec fn is_relevant(kind: EventKind) -> bool {
    match kind {
        EventKind::Create(CreateKind::File) | EventKind::Create(CreateKind::Folder) => true,
        EventKind::Remove(RemoveKind::File) | EventKind::Remove(RemoveKind::Folder) => true,
        EventKind::Modify(ModifyKind::Name(RenameMode::Both))
        | EventKind::Modify(ModifyKind::Name(RenameMode::From))
        | EventKind::Modify(ModifyKind::Name(RenameMode::To)) => true,
        _ => false,
    }
}

/// Whether an event of this kind reports that a folder is gone.
pub open spec fn removes_folder(kind: EventKind) -> bool {
    kind == EventKind::Remove(RemoveKind::Folder)
}

/// What a cache holds after one path of a relevant event was dealt with: the
/// snapshot of the path's parent is gone, and with a folder's removal every
/// snapshot within the path.
pub open spec fn after_path(m: Contents, kind: EventKind, path: Seq<char>) -> Contents {
    let without_parent = match path_parent(path) {
        Some(parent) => m.remove(parent),
        None => m,
    };
    if removes_folder(kind) {
        swept(without_parent, RetentionView::OutsideOf(path))
    } else {
        without_parent
    }
}

/// What a cache holds after the paths of a relevant event were dealt with,
/// one after another.
pub open spec fn after_paths(m: Contents, kind: EventKind, paths: Seq<Seq<char>>) -> Contents
    decreases paths.len(),
{
    if paths.len() == 0 {
        m
    } else {
        after_path(after_paths(m, kind, paths.drop_last()), kind, paths.last())
    }
}

/// What a cache holds after an event: an event that is not relevant leaves it
/// as it is.
pub open spec fn after_event(m: Contents, event: EventView) -> Contents {
    if is_relevant(event.kind) {
        after_paths(m, event.kind, event.paths)
    } else {
        m
    }
}

/// Whether an event of this kind can change what a directory lists.
pub fn should_invalidate(kind: EventKind) -> (r: bool)
    ensures
        r == is_relevant(kind),
{
    match kind {
        EventKind::Create(CreateKind::File) | EventKind::Create(CreateKind::Folder) => true,
        EventKind::Remove(RemoveKind::File) | EventKind::Remove(RemoveKind::Folder) => true,
        EventKind::Modify(ModifyKind::Name(RenameMode::Both))
        | EventKind::Modify(ModifyKind::Name(RenameMode::From))
        | EventKind::Modify(ModifyKind::Name(RenameMode::To)) => true,
        _ => false,
    }
}

/// Brings a cache up to date with a change in the file system.
pub fn handle_fs_event(cache: &mut DirectoryCache, event: &FsEvent)
    ensures
        final(cache)@ == after_event(old(cache)@, event@),
        final(cache).ttl() == old(cache).ttl(),
{
    if !should_invalidate(event.kind) {
        return ;
    }
    let ghost paths = event.paths.deep_view();
    let folder_gone = match event.kind {
        EventKind::Remove(RemoveKind::Folder) => true,
        _ => false,
    };
    let mut i: usize = 0;
    while i < event.paths.len()
        invariant
            i <= event.paths.len(),
            paths == event.paths.deep_view(),
            folder_gone == removes_folder(event.kind),
            cache@ == after_paths(old(cache)@, event.kind, paths.take(i as int)),
            cache.ttl() == old(cache).ttl(),
        decreases event.paths.len() - i,
    {
        let path = &event.paths[i];
        proof {
            assert(paths.take(i + 1).drop_last() =~= paths.take(i as int));
            assert(paths.take(i + 1).last() == path@);
        }
        match parent(path.as_str()) {
            Some(above) => {
                cache.invalidate(above.as_str());
            },
            None => {},
        }
        if folder_gone {
            cache.invalidate_subtree(path.as_str());
        }
        i += 1;
    }
    assert(paths.take(i as int) =~= paths);
}

/// The names of the subdirectories of a workspace that are watched from
/// the start, where they exist.
pub open spec fn conventional_subdirs() -> Seq<Seq<char>> {
    seq!["src"@, "include"@, "lib"@, "cmake"@, "tests"@, "test"@, "modules"@]
}

/// The commands for a workspace at `root`, as far as its first `n`
/// conventional subdirectories: the root is watched, and each of these
/// subdirectories that `present` reports as a directory.
pub open spec fn workspace_watches(root: Seq<char>, present: Seq<bool>, n: nat) -> Seq<
    CommandView,
>
    decreases n,
{
    if n == 0 {
        seq![CommandView::Watch(root)]
    } else {
        let before = workspace_watches(root, present, (n - 1) as nat);
        if n - 1 < present.len() && n - 1 < conventional_subdirs().len() && present[n - 1] {
            before.push(CommandView::Watch(path_joined(root, conventional_subdirs()[n - 1])))
        } else {
            before
        }
    }
}

/// The names of the subdirectories of a workspace that are watched from the
/// start, where they exist.
pub fn conventional_names() -> (r: Vec<String>)
    ensures
        r.deep_view() == conventional_subdirs(),
{
    let mut names: Vec<String> = Vec::new();
    names.push("src".to_owned());
    names.push("include".to_owned());
    names.push("lib".to_owned());
    names.push("cmake".to_owned());
    names.push("tests".to_owned());
    names.push("test".to_owned());
    names.push("modules".to_owned());
    assert(names.deep_view() =~= conventional_subdirs());
    names
}

/// The paths under `root` that `watch_workspace` asks about, in the order in
/// which it expects the answers.
pub fn workspace_candidates(root: &str) -> (r: Vec<String>)
    ensures
        r.deep_view() == conventional_subdirs().map_values(|name: Seq<char>| path_joined(root@, name)),
{
    let names = conventional_names();
    let mut found: Vec<String> = Vec::new();
    let mut i: usize = 0;
    while i < names.len()
        invariant
            i <= names.len(),
            names.deep_view() == conventional_subdirs(),
            found.len() == i,
            forall|j: int| 0 <= j < i ==> found[j]@ == path_joined(root@, conventional_subdirs()[j]),
        decreases names.len() - i,
    {
        assert(names.deep_view()[i as int] == names[i as int]@);
        found.push(join(root, names[i].as_str()));
        i += 1;
    }
    assert(found.deep_view() =~= conventional_subdirs().map_values(
        |name: Seq<char>| path_joined(root@, name),
    ));
    found
}

/// The commands that put a workspace under watch: its root, and each
/// conventional subdirectory for which `present` holds true at the place of
/// its candidate. A watcher that is not running is sent nothing.
pub fn watch_workspace(state: WatcherState, root: &str, present: &Vec<bool>) -> (r: Vec<
    WatchCommand,
>)
    ensures
        r.deep_view() == if state == WatcherState::Running {
            workspace_watches(root@, present@, conventional_subdirs().len())
        } else {
            Seq::empty()
        },
{
    let mut commands: Vec<WatchCommand> = Vec::new();
    if state != WatcherState::Running {
        assert(commands.deep_view() =~= Seq::<CommandView>::empty());
        return commands;
    }
    commands.push(WatchCommand::Watch(root.to_owned()));
    assert(commands.deep_view() =~= workspace_watches(root@, present@, 0));
    let names = conventional_names();
    let mut i: usize = 0;
    while i < names.len()
        invariant
            i <= names.len(),
            names.deep_view() == conventional_subdirs(),
            commands.deep_view() == workspace_watches(root@, present@, i as nat),
        decreases names.len() - i,
    {
        let ghost before = commands.deep_view();
        assert(names.deep_view()[i as int] == names[i as int]@);
        if i < present.len() && present[i] {
            commands.push(WatchCommand::Watch(join(root, names[i].as_str())));
            assert(commands.deep_view() =~= before.push(
                CommandView::Watch(path_joined(root@, conventional_subdirs()[i as int])),
            ));
        }
        i += 1;
    }
    commands
}

/// The state of a watcher after an input. A watcher starts to run when its
/// subscription to the system succeeded, and stays absent when it failed; it
/// shuts down on the command to do so or when its queues are closed, and a
/// watcher that has shut down stays so.
pub open spec fn next_state(state: WatcherState, input: InputView) -> WatcherState {
    match state {
        WatcherState::Uninitialized => match input {
            InputView::Init { subscribed: true } => WatcherState::Running,
            _ => WatcherState::Uninitialized,
        },
        WatcherState::Running => match input {
            InputView::Command(CommandView::Shutdown) | InputView::Closed => WatcherState::ShutDown,
            _ => WatcherState::Running,
        },
        WatcherState::ShutDown => WatcherState::ShutDown,
    }
}

/// What a watcher has to do to its subscription after an input. Only a
/// running watcher acts.
pub open spec fn next_action(state: WatcherState, input: InputView) -> ActionView {
    if state == WatcherState::Running {
        match input {
            InputView::Command(CommandView::Watch(path)) => ActionView::Subscribe(path),
            InputView::Command(CommandView::Unwatch(path)) => ActionView::Unsubscribe(path),
            InputView::Command(CommandView::Shutdown) | InputView::Closed => ActionView::Stop,
            _ => ActionView::Nothing,
        }
    } else {
        ActionView::Nothing
    }
}

/// What the cache holds after an input reached a watcher: only an event that
/// reaches a running watcher changes it.
pub open spec fn next_contents(state: WatcherState, input: InputView, m: Contents) -> Contents {
    match input {
        InputView::Event(event) => if state == WatcherState::Running {
            after_event(m, event)
        } else {
            m
        },
        _ => m,
    }
}

/// One turn of the watcher's loop: takes an input, brings the cache up to
/// date, and says what state follows and what is to be done to the
/// subscription.
pub fn watcher_step(state: WatcherState, input: WatcherInput, cache: &mut DirectoryCache) -> (r: (
    WatcherState,
    WatcherAction,
))
    ensures
        r.0 == next_state(state, input@),
        r.1@ == next_action(state, input@),
        final(cache)@ == next_contents(state, input@, old(cache)@),
        final(cache).ttl() == old(cache).ttl(),
{
    match state {
        WatcherState::Uninitialized => match input {
            WatcherInput::Init { subscribed } => {
                if subscribed {
                    (WatcherState::Running, WatcherAction::Nothing)
                } else {
                    (WatcherState::Uninitialized, WatcherAction::Nothing)
                }
            },
            _ => (WatcherState::Uninitialized, WatcherAction::Nothing),
        },
        WatcherState::Running => match input {
            WatcherInput::Init { subscribed: _ } => (WatcherState::Running, WatcherAction::Nothing),
            WatcherInput::Command(WatchCommand::Watch(path)) => (
                WatcherState::Running,
                WatcherAction::Subscribe(path),
            ),
            WatcherInput::Command(WatchCommand::Unwatch(path)) => (
                WatcherState::Running,
                WatcherAction::Unsubscribe(path),
            ),
            WatcherInput::Command(WatchCommand::Shutdown) => (
                WatcherState::ShutDown,
                WatcherAction::Stop,
            ),
            WatcherInput::Event(event) => {
                handle_fs_event(cache, &event);
                (WatcherState::Running, WatcherAction::Nothing)
            },
            WatcherInput::Closed => (WatcherState::ShutDown, WatcherAction::Stop),
        },
        WatcherState::ShutDown => (WatcherState::ShutDown, WatcherAction::Nothing),
    }
}

/// A second attempt to start a running watcher changes nothing, and a
/// watcher that has shut down stays so whatever reaches it.
pub proof fn lemma_watcher_lifecycle(input: InputView, subscribed: bool, m: Contents)
    ensures
        next_state(WatcherState::Running, InputView::Init { subscribed }) == WatcherState::Running,
        next_action(WatcherState::Running, InputView::Init { subscribed }) == ActionView::Nothing,
        next_state(WatcherState::ShutDown, input) == WatcherState::ShutDown,
        next_action(WatcherState::ShutDown, input) == ActionView::Nothing,
        next_contents(WatcherState::ShutDown, input, m) == m,
{
}

/// Dealing with paths only removes snapshots: what is held afterwards was
/// held before, unchanged.
pub proof fn lemma_paths_only_remove(
    m: Contents,
    kind: EventKind,
    paths: Seq<Seq<char>>,
    key: Seq<char>,
)
    ensures
        after_paths(m, kind, paths).contains_key(key) ==> m.contains_key(key) && after_paths(
            m,
            kind,
            paths,
        )[key] == m[key],
    decreases paths.len(),
{
    if paths.len() > 0 {
        lemma_paths_only_remove(m, kind, paths.drop_last(), key);
    }
}

/// An event only removes snapshots: what a cache holds after it, the cache
/// held before, unchanged. An event that is no creation, removal or rename
/// of a file or folder removes nothing.
pub proof fn lemma_event_only_removes(m: Contents, event: EventView, key: Seq<char>)
    ensures
        after_event(m, event).contains_key(key) ==> m.contains_key(key) && after_event(
            m,
            event,
        )[key] == m[key],
        !is_relevant(event.kind) ==> after_event(m, event) == m,
{
    lemma_paths_only_remove(m, event.kind, event.paths, key);
}

/// After the paths of a relevant event were dealt with, the parent of each
/// of them has no snapshot.
pub proof fn lemma_paths_clear_parents(
    m: Contents,
    kind: EventKind,
    paths: Seq<Seq<char>>,
    i: int,
)
    requires
        0 <= i < paths.len(),
        path_parent(paths[i]) is Some,
    ensures
        !after_paths(m, kind, paths).contains_key(path_parent(paths[i])->0),
    decreases paths.len(),
{
    let key = path_parent(paths[i])->0;
    let before = after_paths(m, kind, paths.drop_last());
    if i < paths.len() - 1 {
        lemma_paths_clear_parents(m, kind, paths.drop_last(), i);
    }
}

/// After an event that reports a creation, a removal or a rename, the
/// directory that holds any path of the event has no snapshot: the next scan
/// of it reads the file system again.
pub proof fn lemma_event_clears_parents(m: Contents, event: EventView, i: int)
    requires
        is_relevant(event.kind),
        0 <= i < event.paths.len(),
        path_parent(event.paths[i]) is Some,
    ensures
        !after_event(m, event).contains_key(path_parent(event.paths[i])->0),
{
    lemma_paths_clear_parents(m, event.kind, event.paths, i);
}

/// After the removal of a folder, no snapshot is left of any path within a
/// path of the event.
pub proof fn lemma_folder_removal_clears_subtree(
    m: Contents,
    event: EventView,
    i: int,
    key: Seq<char>,
)
    requires
        removes_folder(event.kind),
        0 <= i < event.paths.len(),
        path_within(key, event.paths[i]),
    ensures
        !after_event(m, event).contains_key(key),
{
    lemma_paths_clear_subtree(m, event.kind, event.paths, i, key);
}

/// After the paths of a folder's removal were dealt with, no snapshot is
/// left of any path within one of them.
pub proof fn lemma_paths_clear_subtree(
    m: Contents,
    kind: EventKind,
    paths: Seq<Seq<char>>,
    i: int,
    key: Seq<char>,
)
    requires
        removes_folder(kind),
        0 <= i < paths.len(),
        path_within(key, paths[i]),
    ensures
        !after_paths(m, kind, paths).contains_key(key),
    decreases paths.len(),
{
    if i < paths.len() - 1 {
        lemma_paths_clear_subtree(m, kind, paths.drop_last(), i, key);
    }
}

/// Whether an event touches the snapshot under `key`: some path of the event
/// has `key` as its parent or, where a folder is gone, `key` lies within it.
pub open spec fn touches(event: EventView, key: Seq<char>) -> bool {
    exists|i: int|
        0 <= i < event.paths.len() && (path_parent(#[trigger] event.paths[i]) == Some(key) || (
        removes_folder(event.kind) && path_within(key, event.paths[i])))
}

/// Dealing with paths leaves a snapshot in place, unchanged, unless one of
/// them touches it.
pub proof fn lemma_paths_spare_unrelated(
    m: Contents,
    kind: EventKind,
    paths: Seq<Seq<char>>,
    key: Seq<char>,
)
    requires
        m.contains_key(key),
        !touches(EventView { kind, paths }, key),
    ensures
        after_paths(m, kind, paths).contains_key(key),
        after_paths(m, kind, paths)[key] == m[key],
    decreases paths.len(),
{
    if paths.len() > 0 {
        let event = EventView { kind, paths };
        let shorter = EventView { kind, paths: paths.drop_last() };
        assert(!touches(shorter, key)) by {
            if touches(shorter, key) {
                let i = choose|i: int|
                    0 <= i < shorter.paths.len() && (path_parent(#[trigger] shorter.paths[i])
                        == Some(key) || (removes_folder(kind) && path_within(
                        key,
                        shorter.paths[i],
                    )));
                assert(event.paths[i] == shorter.paths[i]);
            }
        }
        lemma_paths_spare_unrelated(m, kind, paths.drop_last(), key);
        assert(event.paths[paths.len() - 1] == paths.last());
    }
}

/// An event leaves every snapshot that it does not touch in place,
/// unchanged.
pub proof fn lemma_event_spares_unrelated(m: Contents, event: EventView, key: Seq<char>)
    requires
        m.contains_key(key),
        !touches(event, key),
    ensures
        after_event(m, event).contains_key(key),
        after_event(m, event)[key] == m[key],
{
    lemma_paths_spare_unrelated(m, event.kind, event.paths, key);
}

} // verus!
