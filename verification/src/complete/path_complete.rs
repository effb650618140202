//! Completion of paths: the partial path under the cursor, the directory
//! to list for it, and the candidates made of the entries found there.

use vstd::prelude::*;
use crate::paths::{join, parent, path_joined, path_parent};
use crate::scanner::cache::{CachedEntry, EntryView};
use crate::scanner::parallel::{
    any_file_policy, directory_policy, include_policy, source_files_policy, subdirectory_policy,
    PolicyView, ScanOptions,
};
use crate::text::{
    ascii_alphanumeric, byte_len, chars_of, find_last, find_last_dot, is_ascii_alphanumeric,
    last_dot, last_index_where, lemma_encode_concat, lines_of, slice_bytes, split_lines,
    string_of_range, text_before, trim_bounds, trimmed_of, CharClass,
};
use vstd::utf8::encode_utf8;

verus! {

/// Longest extension that makes a bare word look like a file's name.
pub const MAX_EXTENSION_LEN: usize = 10;

/// What the user has typed of a path, and where in the line it begins.
#[derive(Debug)]
pub struct PartialPathInfo {
    pub path: String,
    pub start_character: u32,
}

/// What a `PartialPathInfo` holds, as mathematical values.
pub struct PartialPathView {
    pub path: Seq<char>,
    pub start_character: u32,
}

impl View for PartialPathInfo {
    type V = PartialPathView;

    open spec fn view(&self) -> PartialPathView {
        PartialPathView { path: self.path@, start_character: self.start_character }
    }
}

impl Clone for PartialPathInfo {
    fn clone(&self) -> (r: Self)
        ensures
            r@ == self@,
    {
        PartialPathInfo { path: self.path.clone(), start_character: self.start_character }
    }
}

/// Whether `ext` can be the extension of a file's name: one to ten ASCII
/// letters and digits.
pub open spec fn plausible_extension(ext: Seq<char>) -> bool {
    &&& 0 < ext.len() <= MAX_EXTENSION_LEN
    &&& forall|i: int| 0 <= i < ext.len() ==> is_ascii_alphanumeric(#[trigger] ext[i])
}

/// Whether a word looks like a path: it begins with a full stop, a slash or
/// a tilde, or holds a slash, or ends in a plausible extension.
pub open spec fn path_like(partial: Seq<char>) -> bool {
    &&& partial.len() > 0
    &&& {
        ||| partial[0] == '.'
        ||| partial[0] == '/'
        ||| partial[0] == '~'
        ||| partial.contains('/')
        ||| match last_dot(partial) {
            Some(i) => plausible_extension(partial.subrange(i + 1, partial.len() as int)),
            None => false,
        }
    }
}

/// Whether the characters of `v` from `from` on can be the extension of a
/// file's name.
pub fn is_plausible_extension(v: &Vec<char>, from: usize) -> (r: bool)
    requires
        from <= v.len(),
    ensures
        r == plausible_extension(v@.subrange(from as int, v.len() as int)),
{
    let ghost ext = v@.subrange(from as int, v.len() as int);
    let len = v.len() - from;
    if len == 0 || len > MAX_EXTENSION_LEN {
        return false;
    }
    let mut k: usize = from;
    while k < v.len()
        invariant
            from <= k <= v.len(),
            ext == v@.subrange(from as int, v.len() as int),
            forall|j: int| 0 <= j < k - from ==> is_ascii_alphanumeric(#[trigger] ext[j]),
        decreases v.len() - k,
    {
        assert(ext[k - from] == v@[k as int]);
        if !ascii_alphanumeric(v[k]) {
            return false;
        }
        k += 1;
    }
    true
}

/// Whether a word looks like a path.
pub fn looks_like_path(partial: &str) -> (r: bool)
    ensures
        r == path_like(partial@),
{
    let chars = chars_of(partial);
    if chars.len() == 0 {
        return false;
    }
    if chars[0] == '.' || chars[0] == '/' || chars[0] == '~' {
        return true;
    }
    let mut i: usize = 0;
    while i < chars.len()
        invariant
            i <= chars.len(),
            chars@ == partial@,
            forall|j: int| 0 <= j < i ==> chars@[j] != '/',
        decreases chars.len() - i,
    {
        if chars[i] == '/' {
            assert(chars@.contains('/'));
            return true;
        }
        i += 1;
    }
    assert(!chars@.contains('/'));
    match find_last_dot(&chars) {
        Some(dot) => is_plausible_extension(&chars, dot + 1),
        None => false,
    }
}

/// Where the argument under the cursor begins, given the text of the line
/// before the cursor: after the last delimiter, or at the start of the line.
pub open spec fn argument_start(before: Seq<char>) -> int {
    match last_index_where(before, CharClass::Delimiter.pred()) {
        Some(i) => i + 1,
        None => 0,
    }
}

/// What answers a cursor that lies where no text is.
pub open spec fn nothing_typed(character: u32) -> PartialPathView {
    PartialPathView { path: Seq::empty(), start_character: character }
}

/// The partial path before the cursor in `line`, where `character` counts
/// the bytes of the line before the cursor: the text from the start of the
/// argument to the cursor, without quotation marks at its ends, and the
/// number of bytes before the argument. A cursor beyond the line or inside a
/// character has nothing before it.
pub open spec fn partial_in_line(line: Seq<char>, character: u32) -> PartialPathView {
    match text_before(line, character as int) {
        Some(before) => {
            let start = argument_start(before);
            PartialPathView {
                path: trimmed_of(before.skip(start), CharClass::Quote),
                start_character: byte_len(before.take(start)) as u32,
            }
        },
        None => nothing_typed(character),
    }
}

/// The partial path before the cursor at `line` and `character` in `source`.
pub open spec fn partial_path(source: Seq<char>, line: u32, character: u32) -> PartialPathView {
    let lines = lines_of(source);
    if line >= lines.len() {
        nothing_typed(character)
    } else {
        partial_in_line(lines[line as int], character)
    }
}

/// The partial path before the cursor in `line`.
pub fn extract_from_line(line: &str, character: u32) -> (r: PartialPathInfo)
    ensures
        r@ == partial_in_line(line@, character),
{
    broadcast use vstd::utf8::group_utf8_lib;

    let before = match slice_bytes(line, 0, character as usize) {
        Some(text) => text,
        None => {
            return PartialPathInfo { path: String::new(), start_character: character };
        },
    };
    let chars = chars_of(before.as_str());
    assert(chars@.take(chars.len() as int) =~= chars@);
    let start = match find_last(&chars, chars.len(), CharClass::Delimiter) {
        Some(i) => i + 1,
        None => 0,
    };
    let head = string_of_range(&chars, 0, start);
    let offset = head.as_str().as_bytes().len();
    proof {
        let bytes = encode_utf8(line@);
        vstd::utf8::valid_utf8_split(bytes, character as int);
        vstd::utf8::decode_utf8_encode_utf8(bytes.subrange(0, character as int));
        assert(encode_utf8(before@).len() == character);
        lemma_encode_concat(before@.take(start as int), before@.skip(start as int));
        assert(before@.take(start as int) + before@.skip(start as int) =~= before@);
        assert(chars@.subrange(0, start as int) =~= before@.take(start as int));
    }
    let mut argument: Vec<char> = Vec::new();
    let mut i: usize = start;
    while i < chars.len()
        invariant
            start <= i <= chars.len(),
            argument@ == chars@.subrange(start as int, i as int),
        decreases chars.len() - i,
    {
        argument.push(chars[i]);
        i += 1;
    }
    assert(argument@ =~= before@.skip(start as int));
    let bounds = trim_bounds(&argument, CharClass::Quote);
    PartialPathInfo {
        path: string_of_range(&argument, bounds.0, bounds.1),
        start_character: offset as u32,
    }
}

/// The partial path before the cursor at `line` and `character` in `source`.
pub fn extract_partial_path(source: &str, line: u32, character: u32) -> (r: PartialPathInfo)
    ensures
        r@ == partial_path(source@, line, character),
{
    let lines = split_lines(source);
    if (line as usize) >= lines.len() {
        return PartialPathInfo { path: String::new(), start_character: character };
    }
    assert(lines.deep_view()[line as int] == lines[line as int]@);
    extract_from_line(lines[line as usize].as_str(), character)
}

/// The directory to list and the prefix to put before each name, for a
/// partial path typed relative to `base_dir`. A partial path that ends in a
/// slash names the directory itself; otherwise its parent does, and without
/// a parent the base directory is listed.
pub open spec fn search_path(base_dir: Seq<char>, partial: Seq<char>) -> (Seq<char>, Seq<char>) {
    if partial.len() == 0 {
        (base_dir, Seq::empty())
    } else if partial.last() == '/' {
        (path_joined(base_dir, partial), partial)
    } else {
        match path_parent(partial) {
            Some(above) => if above.len() == 0 {
                (base_dir, Seq::empty())
            } else {
                (path_joined(base_dir, above), above + "/"@)
            },
            None => (base_dir, Seq::empty()),
        }
    }
}

/// The directory to list and the prefix to put before each name.
pub fn resolve_search_path(base_dir: &str, partial_input: &str) -> (r: (String, String))
    ensures
        (r.0@, r.1@) == search_path(base_dir@, partial_input@),
{
    let chars = chars_of(partial_input);
    if chars.len() == 0 {
        (base_dir.to_owned(), String::new())
    } else if chars[chars.len() - 1] == '/' {
        (join(base_dir, partial_input), partial_input.to_owned())
    } else {
        match parent(partial_input) {
            Some(above) => {
                if chars_of(above.as_str()).len() == 0 {
                    (base_dir.to_owned(), String::new())
                } else {
                    let dir = join(base_dir, above.as_str());
                    (dir, above.concat("/"))
                }
            },
            None => (base_dir.to_owned(), String::new()),
        }
    }
}

/// The directory in which a file lies, for the purpose of completion: its
/// parent, or the current directory where it has none.
pub open spec fn base_dir_of(current_file: Seq<char>) -> Seq<char> {
    match path_parent(current_file) {
        Some(above) => above,
        None => "."@,
    }
}

/// The directory to list and the prefix to put before each name, for a
/// partial path typed in `current_file`.
pub fn search_location(current_file: &str, partial_info: &PartialPathInfo) -> (r: (String, String))
    ensures
        (r.0@, r.1@) == search_path(base_dir_of(current_file@), partial_info@.path),
{
    let base = match parent(current_file) {
        Some(above) => above,
        None => ".".to_owned(),
    };
    resolve_search_path(base.as_str(), partial_info.path.as_str())
}

/// A place in a text.
#[derive(Debug, Clone, Copy, PartialEq, Eq, Structural)]
pub struct TextPosition {
    pub line: u32,
    pub character: u32,
}

/// A stretch of a text, from `start` up to `end`.
#[derive(Debug, Clone, Copy, PartialEq, Eq, Structural)]
pub struct TextRange {
    pub start: TextPosition,
    pub end: TextPosition,
}

/// What a completion stands for.
#[derive(Debug, Clone, Copy, PartialEq, Eq, Structural)]
pub enum CompletionKind {
    File,
    Folder,
}

/// One candidate that is offered for a partial path.
#[derive(Debug)]
pub struct PathCompletion {
    pub label: String,
    pub kind: CompletionKind,
    pub detail: Option<String>,
    pub sort_text: String,
    pub filter_text: String,
    pub new_text: String,
    pub range: TextRange,
}

/// What a `PathCompletion` holds, as mathematical values.
pub struct CompletionView {
    pub label: Seq<char>,
    pub kind: CompletionKind,
    pub detail: Option<Seq<char>>,
    pub sort_text: Seq<char>,
    pub filter_text: Seq<char>,
    pub new_text: Seq<char>,
    pub range: TextRange,
}

impl View for PathCompletion {
    type V = CompletionView;

    open spec fn view(&self) -> CompletionView {
        CompletionView {
            label: self.label@,
            kind: self.kind,
            detail: self.detail.deep_view(),
            sort_text: self.sort_text@,
            filter_text: self.filter_text@,
            new_text: self.new_text@,
            range: self.range,
        }
    }
}

impl DeepView for PathCompletion {
    type V = CompletionView;

    open spec fn deep_view(&self) -> CompletionView {
        self@
    }
}

/// How completions are presented.
#[derive(Debug, Clone, Copy, PartialEq, Eq, Structural)]
pub struct CompletionOptions {
    /// Whether a directory that holds the marker file is pointed out.
    pub show_cmake_marker: bool,
}

impl Default for CompletionOptions {
    fn default() -> (r: Self)
        ensures
            r.show_cmake_marker == false,
    {
        CompletionOptions { show_cmake_marker: false }
    }
}

/// The text by which an entry is ranked: directories with the marker file
/// come first, then files, then the other directories.
pub open spec fn rank_prefix(e: EntryView) -> Seq<char> {
    if e.is_dir {
        if e.has_cmake {
            "!0_"@
        } else {
            "!2_"@
        }
    } else {
        "!1_"@
    }
}

/// The completion that stands for an entry. A directory's label ends in a
/// slash; the text that is put in and that is filtered by is the prefix with
/// the name.
pub open spec fn completion_of(
    e: EntryView,
    prefix: Seq<char>,
    range: TextRange,
    show_marker: bool,
) -> CompletionView {
    CompletionView {
        label: if e.is_dir {
            e.name + "/"@
        } else {
            e.name
        },
        kind: if e.is_dir {
            CompletionKind::Folder
        } else {
            CompletionKind::File
        },
        detail: if show_marker && e.is_dir && e.has_cmake {
            Some("\u{2713}"@)
        } else {
            None
        },
        sort_text: rank_prefix(e) + e.name,
        filter_text: prefix + e.name,
        new_text: prefix + e.name,
        range,
    }
}

/// `completion_of` as a function of the entry.
pub open spec fn as_completion(prefix: Seq<char>, range: TextRange, show_marker: bool) -> spec_fn(
    EntryView,
) -> CompletionView {
    |e: EntryView| completion_of(e, prefix, range, show_marker)
}

/// The completion that stands for `entry`.
pub fn completion_for(
    entry: &CachedEntry,
    prefix: &str,
    replace_range: TextRange,
    options: &CompletionOptions,
) -> (r: PathCompletion)
    ensures
        r@ == completion_of(entry@, prefix@, replace_range, options.show_cmake_marker),
{
    let label = if entry.is_dir {
        entry.name.clone().concat("/")
    } else {
        entry.name.clone()
    };
    let new_text = prefix.to_owned().concat(entry.name.as_str());
    let filter_text = new_text.clone();
    let rank = if entry.is_dir {
        if entry.has_cmake {
            "!0_"
        } else {
            "!2_"
        }
    } else {
        "!1_"
    };
    let sort_text = rank.to_owned().concat(entry.name.as_str());
    let kind = if entry.is_dir {
        CompletionKind::Folder
    } else {
        CompletionKind::File
    };
    let detail = if options.show_cmake_marker && entry.is_dir && entry.has_cmake {
        Some("\u{2713}".to_owned())
    } else {
        None
    };
    PathCompletion { label, kind, detail, sort_text, filter_text, new_text, range: replace_range }
}

/// The completions that stand for `entries`, in their order.
pub fn entries_to_completions(
    entries: Vec<CachedEntry>,
    prefix: &str,
    replace_range: TextRange,
    options: &CompletionOptions,
) -> (r: Vec<PathCompletion>)
    ensures
        r.deep_view() == entries.deep_view().map_values(
            as_completion(prefix@, replace_range, options.show_cmake_marker),
        ),
{
    let mut items: Vec<PathCompletion> = Vec::new();
    let mut i: usize = 0;
    while i < entries.len()
        invariant
            i <= entries.len(),
            items.len() == i,
            forall|j: int|
                0 <= j < i ==> items[j]@ == completion_of(
                    entries[j]@,
                    prefix@,
                    replace_range,
                    options.show_cmake_marker,
                ),
        decreases entries.len() - i,
    {
        items.push(completion_for(&entries[i], prefix, replace_range, options));
        i += 1;
    }
    assert(items.deep_view() =~= entries.deep_view().map_values(
        as_completion(prefix@, replace_range, options.show_cmake_marker),
    ));
    items
}

/// The kind of argument for which a path is completed.
#[derive(Debug, Clone, Copy, PartialEq, Eq, Structural)]
pub enum PathArgument {
    /// A subdirectory to add to the build.
    Subdirectory,
    /// A file to include.
    IncludePath,
    /// A source file of a target.
    SourceFile,
    /// Any file.
    AnyFile,
    /// A directory.
    Directory,
}

impl PathArgument {
    /// The policy by which the candidates for this argument are scanned.
    pub open spec fn policy(self) -> PolicyView {
        match self {
            PathArgument::Subdirectory => subdirectory_policy(),
            PathArgument::IncludePath => include_policy(),
            PathArgument::SourceFile => source_files_policy(),
            PathArgument::AnyFile => any_file_policy(),
            PathArgument::Directory => directory_policy(),
        }
    }

    /// Whether the candidates for this argument point out the directories
    /// that hold the marker file.
    pub open spec fn marks_projects(self) -> bool {
        self == PathArgument::Subdirectory
    }

    /// The policy by which the candidates for this argument are scanned.
    pub fn scan_options(self) -> (r: ScanOptions)
        ensures
            r@ == self.policy(),
    {
        match self {
            PathArgument::Subdirectory => ScanOptions::for_subdirectory(),
            PathArgument::IncludePath => ScanOptions::for_include(),
            PathArgument::SourceFile => ScanOptions::for_source_files(),
            PathArgument::AnyFile => ScanOptions::for_any_file(),
            PathArgument::Directory => ScanOptions::for_directory(),
        }
    }
}

/// The stretch of the line that a completion replaces: from the start of
/// the partial path to the cursor.
pub open spec fn replaced_range(partial: PartialPathView, line: u32, character: u32) -> TextRange {
    TextRange {
        start: TextPosition { line, character: partial.start_character },
        end: TextPosition { line, character },
    }
}

/// The completions for an argument of kind `argument`, from the entries that
/// a scan under its policy found.
pub open spec fn completions_for(
    argument: PathArgument,
    entries: Seq<EntryView>,
    prefix: Seq<char>,
    partial: PartialPathView,
    line: u32,
    character: u32,
) -> Seq<CompletionView> {
    entries.map_values(
        as_completion(prefix, replaced_range(partial, line, character), argument.marks_projects()),
    )
}

/// The completions for an argument of kind `argument`, from the entries that
/// a scan under its policy found.
pub fn path_completions(
    argument: PathArgument,
    entries: Vec<CachedEntry>,
    prefix: &str,
    partial_info: &PartialPathInfo,
    line: u32,
    character: u32,
) -> (r: Vec<PathCompletion>)
    ensures
        r.deep_view() == completions_for(
            argument,
            entries.deep_view(),
            prefix@,
            partial_info@,
            line,
            character,
        ),
{
    let replace_range = TextRange {
        start: TextPosition { line, character: partial_info.start_character },
        end: TextPosition { line, character },
    };
    let options = CompletionOptions {
        show_cmake_marker: match argument {
            PathArgument::Subdirectory => true,
            _ => false,
        },
    };
    entries_to_completions(entries, prefix, replace_range, &options)
}

/// Completions for a subdirectory to add: directories, those that hold the
/// marker file pointed out.
pub fn get_subdirectory_completions(
    entries: Vec<CachedEntry>,
    prefix: &str,
    partial_info: &PartialPathInfo,
    line: u32,
    character: u32,
) -> (r: Vec<PathCompletion>)
    ensures
        r.deep_view() == completions_for(
            PathArgument::Subdirectory,
            entries.deep_view(),
            prefix@,
            partial_info@,
            line,
            character,
        ),
{
    path_completions(PathArgument::Subdirectory, entries, prefix, partial_info, line, character)
}

/// Completions for a file to include.
pub fn get_include_path_completions(
    entries: Vec<CachedEntry>,
    prefix: &str,
    partial_info: &PartialPathInfo,
    line: u32,
    character: u32,
) -> (r: Vec<PathCompletion>)
    ensures
        r.deep_view() == completions_for(
            PathArgument::IncludePath,
            entries.deep_view(),
            prefix@,
            partial_info@,
            line,
            character,
        ),
{
    path_completions(PathArgument::IncludePath, entries, prefix, partial_info, line, character)
}

/// Completions for a source file of a target.
pub fn get_source_file_completions(
    entries: Vec<CachedEntry>,
    prefix: &str,
    partial_info: &PartialPathInfo,
    line: u32,
    character: u32,
) -> (r: Vec<PathCompletion>)
    ensures
        r.deep_view() == completions_for(
            PathArgument::SourceFile,
            entries.deep_view(),
            prefix@,
            partial_info@,
            line,
            character,
        ),
{
    path_completions(PathArgument::SourceFile, entries, prefix, partial_info, line, character)
}

/// Completions for any file.
pub fn get_any_file_completions(
    entries: Vec<CachedEntry>,
    prefix: &str,
    partial_info: &PartialPathInfo,
    line: u32,
    character: u32,
) -> (r: Vec<PathCompletion>)
    ensures
        r.deep_view() == completions_for(
            PathArgument::AnyFile,
            entries.deep_view(),
            prefix@,
            partial_info@,
            line,
            character,
        ),
{
    path_completions(PathArgument::AnyFile, entries, prefix, partial_info, line, character)
}

/// Completions for a directory.
pub fn get_directory_completions(
    entries: Vec<CachedEntry>,
    prefix: &str,
    partial_info: &PartialPathInfo,
    line: u32,
    character: u32,
) -> (r: Vec<PathCompletion>)
    ensures
        r.deep_view() == completions_for(
            PathArgument::Directory,
            entries.deep_view(),
            prefix@,
            partial_info@,
            line,
            character,
        ),
{
    path_completions(PathArgument::Directory, entries, prefix, partial_info, line, character)
}

} // verus!
