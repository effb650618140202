use cmake_lsp_core::complete::builtin::{
    collect_command_docs, command_completion, command_completions, commands_from_parts,
    gen_builtin_commands, gen_builtin_modules, gen_builtin_variables, names_from_parts,
    plain_name, BuiltinCompletion, BuiltinKind, InsertFormat,
};
use cmake_lsp_core::text_map::TextMap;

const COMMANDS_HELP: &str = "\
add_executable
--------------

Add an executable to the project.

 add_executable(<name> [source1] [source2 ...])

Set
---

Set a variable.

 set(<variable> <value>...)
";

const VARIABLES_HELP: &str = "\
CMAKE_BUILD_TYPE
----------------

Specifies the build type on single-configuration generators.

CMAKE_SOURCE_DIR
----------------

The path to the top level of the source tree.
";

const MODULES_HELP: &str = "\
CheckIncludeFile
----------------

Provides a macro to check if a header file can be included in C.

FindThreads
-----------

This module determines the thread library of the system.
";

fn by_label<'a>(items: &'a [BuiltinCompletion], label: &str) -> &'a BuiltinCompletion {
    let found: Vec<&BuiltinCompletion> = items.iter().filter(|i| i.label == label).collect();
    assert_eq!(found.len(), 1, "label {:?}", label);
    found[0]
}

fn labels(items: &[BuiltinCompletion]) -> Vec<String> {
    let mut all: Vec<String> = items.iter().map(|i| i.label.clone()).collect();
    all.sort();
    all
}

#[test]
fn test_cmake_command_builtin() {
    let output = gen_builtin_commands(COMMANDS_HELP, true, true);
    assert!(!output.is_empty());
}

#[test]
fn test_cmake_variables_builtin() {
    let output = gen_builtin_variables(VARIABLES_HELP);
    assert!(!output.is_empty());
}

#[test]
fn test_cmake_modules_builtin() {
    let output = gen_builtin_modules(COMMANDS_HELP);
    assert!(!output.is_empty());
}

#[test]
fn commands_come_in_lowercase_and_in_capitals() {
    let items = gen_builtin_commands(COMMANDS_HELP, true, false);
    assert_eq!(labels(&items), vec!["ADD_EXECUTABLE", "SET", "add_executable", "set"]);
    assert_eq!(
        by_label(&items, "add_executable").insert_text.as_deref(),
        Some("add_executable($0)")
    );

    let lower = by_label(&items, "set");
    assert_eq!(lower.kind, BuiltinKind::Function);
    assert_eq!(lower.detail, "Function");
    assert_eq!(lower.documentation, "Set a variable.\n\n set(<variable> <value>...)");
    assert_eq!(lower.insert_text.as_deref(), Some("set($0)"));
    assert_eq!(lower.insert_text_format, Some(InsertFormat::Snippet));
    assert_eq!(lower.sort_text.as_deref(), Some("0_set"));
    assert_eq!(lower.filter_text.as_deref(), Some("set"));

    let upper = by_label(&items, "SET");
    assert_eq!(upper.documentation, lower.documentation);
    assert_eq!(upper.insert_text.as_deref(), Some("SET"));
    assert_eq!(upper.insert_text_format, Some(InsertFormat::PlainText));
    assert_eq!(upper.sort_text.as_deref(), Some("1_SET"));
    assert_eq!(upper.filter_text.as_deref(), Some("set"));
}

#[test]
fn commands_without_snippets_put_in_the_bare_name() {
    let items = gen_builtin_commands(COMMANDS_HELP, false, false);
    let lower = by_label(&items, "set");
    assert_eq!(lower.insert_text.as_deref(), Some("set"));
    assert_eq!(lower.insert_text_format, Some(InsertFormat::PlainText));
    assert_eq!(lower.sort_text.as_deref(), Some("0_set"));
}

#[test]
fn package_configuration_command_is_offered_on_request() {
    let with = gen_builtin_commands(COMMANDS_HELP, true, true);
    assert_eq!(with.len(), 6);
    assert_eq!(gen_builtin_commands(COMMANDS_HELP, true, false).len(), 4);
    let lower = by_label(&with, "pkg_check_modules");
    assert_eq!(lower.documentation, "please findpackage PkgConfig first");
    assert_eq!(lower.insert_text.as_deref(), Some("pkg_check_modules($0)"));
    assert_eq!(lower.sort_text.as_deref(), Some("0_pkg_check_modules"));
    let upper = by_label(&with, "PKG_CHECK_MODULES");
    assert_eq!(upper.documentation, "please findpackage PkgConfig first");
    assert_eq!(upper.filter_text.as_deref(), Some("pkg_check_modules"));

    let alone = gen_builtin_commands("", false, true);
    assert_eq!(labels(&alone), vec!["PKG_CHECK_MODULES", "pkg_check_modules"]);
    assert!(gen_builtin_commands("", false, false).is_empty());
}

#[test]
fn command_parts_pair_headings_with_what_follows() {
    let matches = vec!["Alpha\n---".to_string(), "beta\n--".to_string(), "gamma\n-".to_string()];
    let pieces = vec!["before".to_string(), " about alpha ".to_string(), "about beta".to_string()];
    let docs = collect_command_docs(&matches, &pieces, false);
    assert_eq!(docs.len(), 4);
    assert_eq!(docs.get("alpha").map(|s| s.as_str()), Some(" about alpha "));
    assert_eq!(docs.get("ALPHA").map(|s| s.as_str()), Some(" about alpha "));
    assert_eq!(docs.get("BETA").map(|s| s.as_str()), Some("about beta"));
    assert!(docs.get("gamma").is_none());
    assert!(docs.get("Alpha").is_none());

    let items = commands_from_parts(&matches, &pieces, false, false);
    assert_eq!(labels(&items), vec!["ALPHA", "BETA", "alpha", "beta"]);
    assert_eq!(by_label(&items, "alpha").documentation, "about alpha");
}

#[test]
fn a_name_that_comes_twice_keeps_its_last_description() {
    let matches = vec!["one\n-".to_string(), "ONE\n-".to_string()];
    let pieces = vec![String::new(), "first".to_string(), "second".to_string()];
    let items = commands_from_parts(&matches, &pieces, false, false);
    assert_eq!(labels(&items), vec!["ONE", "one"]);
    assert_eq!(by_label(&items, "one").documentation, "second");
    assert_eq!(by_label(&items, "ONE").documentation, "second");
}

#[test]
fn completions_list_each_key_once() {
    let docs: TextMap<String> = TextMap::new()
        .insert("b".to_string(), "about b".to_string())
        .insert("A".to_string(), "about A".to_string())
        .insert("b".to_string(), "more about b".to_string());
    let items = command_completions(&docs, true);
    assert_eq!(items.len(), 2);
    assert_eq!(by_label(&items, "b").documentation, "more about b");
    assert_eq!(by_label(&items, "A").sort_text.as_deref(), Some("1_A"));
}

#[test]
fn plain_names_are_lowercase_letters_and_underscores() {
    assert!(plain_name("add_executable"));
    assert!(plain_name(""));
    assert!(plain_name("_"));
    assert!(!plain_name("Add"));
    assert!(!plain_name("add2"));
    assert!(!plain_name("add-executable"));
    assert!(!plain_name("\u{e9}"));

    let item = command_completion("add2", "  doc  ", true);
    assert_eq!(item.insert_text.as_deref(), Some("add2"));
    assert_eq!(item.insert_text_format, Some(InsertFormat::PlainText));
    assert_eq!(item.sort_text.as_deref(), Some("1_add2"));
    assert_eq!(item.documentation, "doc");
}

#[test]
fn variables_keep_the_order_and_the_case_of_the_help_text() {
    let items = gen_builtin_variables(VARIABLES_HELP);
    let names: Vec<&str> = items.iter().map(|i| i.label.as_str()).collect();
    assert_eq!(names, vec!["CMAKE_BUILD_TYPE", "CMAKE_SOURCE_DIR"]);
    assert_eq!(items[0].kind, BuiltinKind::Variable);
    assert_eq!(items[0].detail, "Variable");
    assert_eq!(
        items[0].documentation,
        "Specifies the build type on single-configuration generators."
    );
    assert_eq!(items[0].insert_text, None);
    assert_eq!(items[0].insert_text_format, None);
    assert_eq!(items[0].sort_text, None);
    assert_eq!(items[0].filter_text, None);
    assert_eq!(items[1].documentation, "The path to the top level of the source tree.");
}

#[test]
fn modules_are_marked_as_modules() {
    let items = gen_builtin_modules(MODULES_HELP);
    assert!(!items.is_empty());
    for item in &items {
        assert_eq!(item.kind, BuiltinKind::Module);
        assert_eq!(item.detail, "Module");
        assert_eq!(item.insert_text, None);
    }
    assert!(gen_builtin_modules("").is_empty());
}

#[test]
fn name_parts_pair_headings_with_what_follows() {
    let matches = vec!["VAR_A\n----".to_string(), "VAR_B\n----".to_string()];
    let pieces = vec!["skipped".to_string(), "\n about a \n".to_string()];
    let items = names_from_parts(BuiltinKind::Variable, &matches, &pieces);
    assert_eq!(items.len(), 1);
    assert_eq!(items[0].label, "VAR_A");
    assert_eq!(items[0].documentation, "about a");

    let modules = names_from_parts(BuiltinKind::Module, &matches, &pieces);
    assert_eq!(modules[0].detail, "Module");
}
