//! Completions for built-in commands, variables and modules, read from the
//! build tool's help text.

use vstd::prelude::*;
use crate::pattern::{find_all, regex_matches, regex_pieces, split_all};
use crate::signature_help::{after_first, shorter};
use crate::text::{
    chars_of, first_line, first_line_of, lowercase, lowercase_of, trim, trimmed, uppercase,
    uppercase_of,
};
use crate::text_map::TextMap;

verus! {

/// The pattern of the heading of a command in the help text.
pub const COMMAND_HEADING_PATTERN: &'static str = "[a-zA-z]+\\n-+";

/// The pattern of the heading of a variable or of a module in the help text.
pub const NAME_HEADING_PATTERN: &'static str = "[z-zA-z]+\\n-+";

/// The command that is offered where the package configuration tool is at
/// home, though the help text does not list it.
pub const PKG_CONFIG_COMMAND: &'static str = "pkg_check_modules";

/// The same command in capitals.
pub const PKG_CONFIG_COMMAND_UPPER: &'static str = "PKG_CHECK_MODULES";

/// What is said of that command.
pub const PKG_CONFIG_NOTE: &'static str = "please findpackage PkgConfig first";

/// What a built-in name stands for.
#[derive(Debug, Clone, Copy, PartialEq, Eq, Structural)]
pub enum BuiltinKind {
    Function,
    Variable,
    Module,
}

/// How the text that a completion puts in is to be read.
#[derive(Debug, Clone, Copy, PartialEq, Eq, Structural)]
pub enum InsertFormat {
    PlainText,
    Snippet,
}

/// A completion for a built-in command, variable or module.
#[derive(Debug)]
pub struct BuiltinCompletion {
    pub label: String,
    pub kind: BuiltinKind,
    pub detail: String,
    pub documentation: String,
    pub insert_text: Option<String>,
    pub insert_text_format: Option<InsertFormat>,
    pub sort_text: Option<String>,
    pub filter_text: Option<String>,
}

/// What a `BuiltinCompletion` holds, as mathematical values.
pub struct BuiltinView {
    pub label: Seq<char>,
    pub kind: BuiltinKind,
    pub detail: Seq<char>,
    pub documentation: Seq<char>,
    pub insert_text: Option<Seq<char>>,
    pub insert_text_format: Option<InsertFormat>,
    pub sort_text: Option<Seq<char>>,
    pub filter_text: Option<Seq<char>>,
}

impl View for BuiltinCompletion {
    type V = BuiltinView;

    open spec fn view(&self) -> BuiltinView {
        BuiltinView {
            label: self.label@,
            kind: self.kind,
            detail: self.detail@,
            documentation: self.documentation@,
            insert_text: self.insert_text.deep_view(),
            insert_text_format: self.insert_text_format,
            sort_text: self.sort_text.deep_view(),
            filter_text: self.filter_text.deep_view(),
        }
    }
}

impl DeepView for BuiltinCompletion {
    type V = BuiltinView;

    open spec fn deep_view(&self) -> BuiltinView {
        self@
    }
}

/// Whether a name is written in lowercase ASCII letters and underscores
/// alone.
pub open spec fn is_plain_name(name: Seq<char>) -> bool {
    forall|i: int| 0 <= i < name.len() ==> ('a' <= #[trigger] name[i] <= 'z' || name[i] == '_')
}

/// Whether a name is written in lowercase ASCII letters and underscores
/// alone.
pub fn plain_name(name: &str) -> (r: bool)
    ensures
        r == is_plain_name(name@),
{
    let chars = chars_of(name);
    let mut i: usize = 0;
    while i < chars.len()
        invariant
            i <= chars.len(),
            chars@ == name@,
            forall|j: int| 0 <= j < i ==> ('a' <= #[trigger] chars@[j] <= 'z' || chars@[j] == '_'),
        decreases chars.len() - i,
    {
        let c = chars[i];
        if !(('a' <= c && c <= 'z') || c == '_') {
            return false;
        }
        i += 1;
    }
    true
}

/// The completion for the command called `key`, described by `message`. A
/// name in lowercase ranks before one in capitals and, where the client
/// takes snippets, puts the parentheses in with the cursor between them.
pub open spec fn command_item(key: Seq<char>, message: Seq<char>, snippets: bool) -> BuiltinView {
    BuiltinView {
        label: key,
        kind: BuiltinKind::Function,
        detail: "Function"@,
        documentation: trimmed(message),
        insert_text: if snippets && is_plain_name(key) {
            Some(key + "($0)"@)
        } else {
            Some(key)
        },
        insert_text_format: if snippets && is_plain_name(key) {
            Some(InsertFormat::Snippet)
        } else {
            Some(InsertFormat::PlainText)
        },
        sort_text: if is_plain_name(key) {
            Some("0_"@ + key)
        } else {
            Some("1_"@ + key)
        },
        filter_text: Some(lowercase_of(key)),
    }
}

/// The completion for a variable or a module called `key`, described by
/// `message`.
pub open spec fn name_item(kind: BuiltinKind, key: Seq<char>, message: Seq<char>) -> BuiltinView {
    BuiltinView {
        label: key,
        kind,
        detail: if kind == BuiltinKind::Variable {
            "Variable"@
        } else if kind == BuiltinKind::Module {
            "Module"@
        } else {
            "Function"@
        },
        documentation: trimmed(message),
        insert_text: None,
        insert_text_format: None,
        sort_text: None,
        filter_text: None,
    }
}

/// The descriptions of the first `n` commands, each under its name in
/// lowercase and in capitals.
pub open spec fn command_docs_among(matches: Seq<Seq<char>>, contents: Seq<Seq<char>>, n: nat) -> Map<
    Seq<char>,
    Seq<char>,
>
    decreases n,
{
    if n == 0 || n > matches.len() || n > contents.len() {
        Map::empty()
    } else {
        let name = first_line(matches[n - 1]);
        command_docs_among(matches, contents, (n - 1) as nat).insert(
            lowercase_of(name),
            contents[n - 1],
        ).insert(uppercase_of(name), contents[n - 1])
    }
}

/// The descriptions of the commands, by name, from the matches of the
/// headings and from the parts of the help text that no heading covers.
pub open spec fn command_docs(
    matches: Seq<Seq<char>>,
    pieces: Seq<Seq<char>>,
    with_pkg_config: bool,
) -> Map<Seq<char>, Seq<char>> {
    let contents = after_first(pieces);
    let listed = command_docs_among(matches, contents, shorter(matches.len(), contents.len()));
    if with_pkg_config {
        listed.insert(PKG_CONFIG_COMMAND@, PKG_CONFIG_NOTE@).insert(
            PKG_CONFIG_COMMAND_UPPER@,
            PKG_CONFIG_NOTE@,
        )
    } else {
        listed
    }
}

/// Whether `items` are the completions of the commands in `docs`, one for
/// each name, in some order.
pub open spec fn lists_commands(
    items: Seq<BuiltinView>,
    docs: Map<Seq<char>, Seq<char>>,
    snippets: bool,
) -> bool {
    exists|order: Seq<Seq<char>>|
        {
            &&& order.no_duplicates()
            &&& order.to_set() == docs.dom()
            &&& #[trigger] order.len() == items.len()
            &&& forall|i: int|
                0 <= i < order.len() ==> #[trigger] items[i] == command_item(
                    order[i],
                    docs[order[i]],
                    snippets,
                )
        }
}

/// The completion for the command called `key`, described by `message`.
pub fn command_completion(key: &str, message: &str, snippets: bool) -> (r: BuiltinCompletion)
    ensures
        r@ == command_item(key@, message@, snippets),
{
    let plain = plain_name(key);
    let (insert_text, insert_text_format) = if snippets && plain {
        (Some(key.to_owned().concat("($0)")), Some(InsertFormat::Snippet))
    } else {
        (Some(key.to_owned()), Some(InsertFormat::PlainText))
    };
    let sort_text = if plain {
        "0_".to_owned().concat(key)
    } else {
        "1_".to_owned().concat(key)
    };
    BuiltinCompletion {
        label: key.to_owned(),
        kind: BuiltinKind::Function,
        detail: "Function".to_owned(),
        documentation: trim(message),
        insert_text,
        insert_text_format,
        sort_text: Some(sort_text),
        filter_text: Some(lowercase(key)),
    }
}

/// The descriptions of the commands, by name.
pub fn collect_command_docs(matches: &Vec<String>, pieces: &Vec<String>, with_pkg_config: bool) -> (r:
    TextMap<String>)
    ensures
        r@ == command_docs(matches.deep_view(), pieces.deep_view(), with_pkg_config),
{
    let ghost found = matches.deep_view();
    let ghost contents = after_first(pieces.deep_view());
    let mut completes: TextMap<String> = TextMap::new();
    let mut i: usize = 0;
    while i < matches.len() && i + 1 < pieces.len()
        invariant
            i <= matches.len(),
            i <= contents.len(),
            found == matches.deep_view(),
            contents == after_first(pieces.deep_view()),
            completes@ == command_docs_among(found, contents, i as nat),
        decreases matches.len() - i,
    {
        let name = first_line_of(matches[i].as_str());
        let content = &pieces[i + 1];
        proof {
            assert(found[i as int] == matches[i as int]@);
            assert(pieces.deep_view()[i + 1] == pieces[i + 1]@);
            assert(contents[i as int] == content@);
        }
        completes = completes.insert(lowercase(name.as_str()), content.clone());
        completes = completes.insert(uppercase(name.as_str()), content.clone());
        i += 1;
    }
    if with_pkg_config {
        completes = completes.insert(PKG_CONFIG_COMMAND.to_owned(), PKG_CONFIG_NOTE.to_owned());
        completes = completes.insert(
            PKG_CONFIG_COMMAND_UPPER.to_owned(),
            PKG_CONFIG_NOTE.to_owned(),
        );
    }
    completes
}

/// The completions of the commands whose descriptions `docs` holds, one for
/// each name.
pub fn command_completions(docs: &TextMap<String>, snippets: bool) -> (r: Vec<BuiltinCompletion>)
    ensures
        lists_commands(r.deep_view(), docs@, snippets),
{
    let count = docs.len();
    let ghost order = docs.key_order();
    let mut items: Vec<BuiltinCompletion> = Vec::new();
    let mut i: usize = 0;
    while i < count
        invariant
            i <= count,
            count == docs.key_order().len(),
            order == docs.key_order(),
            items.len() == i,
            forall|j: int|
                0 <= j < i ==> #[trigger] items[j]@ == command_item(
                    order[j],
                    docs@[order[j]],
                    snippets,
                ),
        decreases count - i,
    {
        let key = docs.key_at(i);
        let message = docs.value_at(i);
        items.push(command_completion(key.as_str(), message.as_str(), snippets));
        i += 1;
    }
    proof {
        let shown = items.deep_view();
        assert(order.len() == shown.len());
        assert forall|j: int| 0 <= j < order.len() implies #[trigger] shown[j] == command_item(
            order[j],
            docs@[order[j]],
            snippets,
        ) by {
            assert(shown[j] == items[j]@);
        }
    }
    items
}

/// The completions of the built-in commands, from the matches of the
/// headings in the help text and the parts that no heading covers.
pub fn commands_from_parts(
    matches: &Vec<String>,
    pieces: &Vec<String>,
    snippets: bool,
    with_pkg_config: bool,
) -> (r: Vec<BuiltinCompletion>)
    ensures
        lists_commands(
            r.deep_view(),
            command_docs(matches.deep_view(), pieces.deep_view(), with_pkg_config),
            snippets,
        ),
{
    let docs = collect_command_docs(matches, pieces, with_pkg_config);
    command_completions(&docs, snippets)
}

/// The completions of the built-in commands that a help text describes.
/// `snippets` says whether the client takes snippets, `with_pkg_config`
/// whether the command of the package configuration tool is offered too.
pub fn gen_builtin_commands(raw_info: &str, snippets: bool, with_pkg_config: bool) -> (r: Vec<
    BuiltinCompletion,
>)
    ensures
        match (
            regex_matches(COMMAND_HEADING_PATTERN@, raw_info@),
            regex_pieces(COMMAND_HEADING_PATTERN@, raw_info@),
        ) {
            (Some(matches), Some(pieces)) => lists_commands(
                r.deep_view(),
                command_docs(matches, pieces, with_pkg_config),
                snippets,
            ),
            _ => r.deep_view() == Seq::<BuiltinView>::empty(),
        },
{
    let matches = find_all(COMMAND_HEADING_PATTERN, raw_info);
    let pieces = split_all(COMMAND_HEADING_PATTERN, raw_info);
    match (matches, pieces) {
        (Some(matches), Some(pieces)) => commands_from_parts(
            &matches,
            &pieces,
            snippets,
            with_pkg_config,
        ),
        _ => {
            let nothing: Vec<BuiltinCompletion> = Vec::new();
            assert(nothing.deep_view() =~= Seq::<BuiltinView>::empty());
            nothing
        },
    }
}

/// The completions of the first `n` names, each with the text that follows
/// its heading.
pub open spec fn name_items_among(
    kind: BuiltinKind,
    matches: Seq<Seq<char>>,
    contents: Seq<Seq<char>>,
    n: nat,
) -> Seq<BuiltinView>
    decreases n,
{
    if n == 0 || n > matches.len() || n > contents.len() {
        Seq::empty()
    } else {
        name_items_among(kind, matches, contents, (n - 1) as nat).push(
            name_item(kind, first_line(matches[n - 1]), contents[n - 1]),
        )
    }
}

/// The completions of the names whose headings matched, in the order of
/// the help text.
pub open spec fn name_items(kind: BuiltinKind, matches: Seq<Seq<char>>, pieces: Seq<Seq<char>>) -> Seq<
    BuiltinView,
> {
    let contents = after_first(pieces);
    name_items_among(kind, matches, contents, shorter(matches.len(), contents.len()))
}

/// The completions that a help text describes, for variables or for
/// modules.
pub open spec fn names_in_help(kind: BuiltinKind, raw_info: Seq<char>) -> Seq<BuiltinView> {
    match (
        regex_matches(NAME_HEADING_PATTERN@, raw_info),
        regex_pieces(NAME_HEADING_PATTERN@, raw_info),
    ) {
        (Some(matches), Some(pieces)) => name_items(kind, matches, pieces),
        _ => Seq::empty(),
    }
}

/// The completions of the names whose headings matched, in the order of
/// the help text.
pub fn names_from_parts(kind: BuiltinKind, matches: &Vec<String>, pieces: &Vec<String>) -> (r: Vec<
    BuiltinCompletion,
>)
    ensures
        r.deep_view() == name_items(kind, matches.deep_view(), pieces.deep_view()),
{
    let ghost found = matches.deep_view();
    let ghost contents = after_first(pieces.deep_view());
    let mut items: Vec<BuiltinCompletion> = Vec::new();
    let mut i: usize = 0;
    assert(items.deep_view() =~= name_items_among(kind, found, contents, 0));
    while i < matches.len() && i + 1 < pieces.len()
        invariant
            i <= matches.len(),
            i <= contents.len(),
            found == matches.deep_view(),
            contents == after_first(pieces.deep_view()),
            items.deep_view() == name_items_among(kind, found, contents, i as nat),
        decreases matches.len() - i,
    {
        let ghost before = items.deep_view();
        let name = first_line_of(matches[i].as_str());
        let content = &pieces[i + 1];
        proof {
            assert(found[i as int] == matches[i as int]@);
            assert(pieces.deep_view()[i + 1] == pieces[i + 1]@);
            assert(contents[i as int] == content@);
        }
        let detail = match kind {
            BuiltinKind::Variable => "Variable".to_owned(),
            BuiltinKind::Module => "Module".to_owned(),
            BuiltinKind::Function => "Function".to_owned(),
        };
        items.push(
            BuiltinCompletion {
                label: name,
                kind,
                detail,
                documentation: trim(content.as_str()),
                insert_text: None,
                insert_text_format: None,
                sort_text: None,
                filter_text: None,
            },
        );
        assert(items.deep_view() =~= before.push(
            name_item(kind, first_line(found[i as int]), contents[i as int]),
        ));
        i += 1;
    }
    items
}

/// The completions of the names that a help text describes.
fn gen_builtin_names(kind: BuiltinKind, raw_info: &str) -> (r: Vec<BuiltinCompletion>)
    ensures
        r.deep_view() == names_in_help(kind, raw_info@),
{
    let matches = find_all(NAME_HEADING_PATTERN, raw_info);
    let pieces = split_all(NAME_HEADING_PATTERN, raw_info);
    match (matches, pieces) {
        (Some(matches), Some(pieces)) => names_from_parts(kind, &matches, &pieces),
        _ => {
            let nothing: Vec<BuiltinCompletion> = Vec::new();
            assert(nothing.deep_view() =~= Seq::<BuiltinView>::empty());
            nothing
        },
    }
}

/// The completions of the built-in variables that a help text describes.
pub fn gen_builtin_variables(raw_info: &str) -> (r: Vec<BuiltinCompletion>)
    ensures
        r.deep_view() == names_in_help(BuiltinKind::Variable, raw_info@),
{
    gen_builtin_names(BuiltinKind::Variable, raw_info)
}

/// The completions of the built-in modules that a help text describes.
pub fn gen_builtin_modules(raw_info: &str) -> (r: Vec<BuiltinCompletion>)
    ensures
        r.deep_view() == names_in_help(BuiltinKind::Module, raw_info@),
{
    gen_builtin_names(BuiltinKind::Module, raw_info)
}

} // verus!
