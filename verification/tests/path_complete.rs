use cmake_lsp_core::complete::path_complete::{
    entries_to_completions, extract_from_line, extract_partial_path, get_any_file_completions,
    get_directory_completions, get_include_path_completions, get_source_file_completions,
    get_subdirectory_completions, looks_like_path, path_completions, resolve_search_path,
    search_location, CompletionKind, CompletionOptions, PartialPathInfo, PathArgument,
    TextPosition, TextRange,
};
use cmake_lsp_core::scanner::cache::{CachedEntry, DirectoryCache};
use cmake_lsp_core::scanner::parallel::{
    complete_scan, filter_entries, scan_directory, DirListing, WalkedEntry,
};

#[test]
fn test_looks_like_path() {
    // Should return true for path-like inputs
    assert!(looks_like_path("./src"));
    assert!(looks_like_path("../lib"));
    assert!(looks_like_path("/usr/local"));
    assert!(looks_like_path("~/projects"));
    assert!(looks_like_path("src/main.cpp"));
    assert!(looks_like_path("main.cpp"));
    assert!(looks_like_path("config.cmake"));
    assert!(looks_like_path("CMakeLists.txt"));

    // Should return false for non-path inputs
    assert!(!looks_like_path(""));
    assert!(!looks_like_path("WIN32"));
    assert!(!looks_like_path("MACOSX_BUNDLE"));
    assert!(!looks_like_path("PUBLIC"));
    assert!(!looks_like_path("PRIVATE"));
    assert!(!looks_like_path("MyTarget"));
    assert!(!looks_like_path("${VAR}"));
}

#[test]
fn test_extract_partial_path() {
    let source = r#"
add_subdirectory(src/)
include("cmake/mo")
"#;
    // "add_subdirectory(src/)" - position 21 is right after the '/'
    let info1 = extract_partial_path(source, 1, 21);
    assert_eq!(info1.path, "src/");

    // "include(\"cmake/mo\")" - position 17 is right after 'mo'
    let info2 = extract_partial_path(source, 2, 17);
    assert_eq!(info2.path, "cmake/mo");
}

#[test]
fn test_extract_partial_path_incomplete_command() {
    // Test the scenario: add_executable(my_app ./
    // Cursor at column 24 (after the /)
    let source = "add_executable(my_app ./";
    let info = extract_partial_path(source, 0, 24);

    // The partial path should be "./" (starting after the space at position 21)
    assert_eq!(info.path, "./");
    assert_eq!(info.start_character, 22); // After the space

    // Verify looks_like_path recognizes it
    assert!(looks_like_path(&info.path));
}

#[test]
fn test_extract_partial_path_dot_only() {
    // Test when user has typed just "."
    let source = "add_executable(my_app .";
    let info = extract_partial_path(source, 0, 23);

    assert_eq!(info.path, ".");
    assert!(looks_like_path(&info.path));
}

#[test]
fn test_subdirectory_completions() {
    // src holds the marker file, tests does not.
    let entries = vec![
        CachedEntry::from_listing("src".to_string(), true, true),
        CachedEntry::from_listing("tests".to_string(), true, false),
    ];
    let partial_info = PartialPathInfo {
        path: String::new(),
        start_character: 17, // after "add_subdirectory("
    };
    let completions = get_subdirectory_completions(entries, "", &partial_info, 0, 17);
    assert!(!completions.is_empty());

    // src should be prioritized (has CMakeLists.txt)
    let src_item = completions.iter().find(|c| c.label == "src/").unwrap();
    assert!(src_item.sort_text.starts_with("!0_"));
    assert_eq!(src_item.detail, Some("\u{2713}".to_string()));

    // tests should be lower priority (no CMakeLists.txt)
    let tests_item = completions.iter().find(|c| c.label == "tests/").unwrap();
    assert!(tests_item.sort_text.starts_with("!2_"));
    assert_eq!(tests_item.detail, None);
}

#[test]
fn test_source_file_completions() {
    let listed = vec![
        CachedEntry::from_listing("main.cpp".to_string(), false, false),
        CachedEntry::from_listing("util.c".to_string(), false, false),
        CachedEntry::from_listing("header.h".to_string(), false, false),
        CachedEntry::from_listing("readme.txt".to_string(), false, false), // Should not appear
    ];
    let entries = filter_entries(listed, &PathArgument::SourceFile.scan_options());
    let partial_info = PartialPathInfo { path: "src/".to_string(), start_character: 16 };
    let (_, prefix) = search_location("/proj/CMakeLists.txt", &partial_info);
    let completions = get_source_file_completions(entries, &prefix, &partial_info, 0, 20);

    // Should find source files but not readme.txt
    assert!(completions.iter().any(|c| c.label == "main.cpp"));
    assert!(completions.iter().any(|c| c.label == "util.c"));
    assert!(completions.iter().any(|c| c.label == "header.h"));
    assert!(!completions.iter().any(|c| c.label == "readme.txt"));
}

#[test]
fn test_any_file_completions() {
    let listed = vec![
        CachedEntry::from_listing("config.txt".to_string(), false, false),
        CachedEntry::from_listing("data.json".to_string(), false, false),
        CachedEntry::from_listing("script.sh".to_string(), false, false),
        CachedEntry::from_listing("CMakeLists.txt".to_string(), false, false),
    ];
    let entries = filter_entries(listed, &PathArgument::AnyFile.scan_options());
    let partial_info = PartialPathInfo { path: String::new(), start_character: 10 };
    let completions = get_any_file_completions(entries, "", &partial_info, 0, 10);

    // Should find all files
    assert!(completions.iter().any(|c| c.label == "config.txt"));
    assert!(completions.iter().any(|c| c.label == "data.json"));
    assert!(completions.iter().any(|c| c.label == "script.sh"));
    // CMakeLists.txt should also be included
    assert!(completions.iter().any(|c| c.label == "CMakeLists.txt"));
}

#[test]
fn test_include_completions() {
    let listed = vec![
        CachedEntry::from_listing("FindFoo.cmake".to_string(), false, false),
        CachedEntry::from_listing("utils.cmake".to_string(), false, false),
    ];
    let entries = filter_entries(listed, &PathArgument::IncludePath.scan_options());
    let partial_info = PartialPathInfo {
        path: "cmake/".to_string(),
        start_character: 9, // after "include(\""
    };
    let (search_dir, prefix) = search_location("/proj/CMakeLists.txt", &partial_info);
    assert_eq!(search_dir, "/proj/cmake/");
    let completions = get_include_path_completions(entries, &prefix, &partial_info, 0, 15);
    assert!(!completions.is_empty());

    // Should find .cmake files
    assert!(completions.iter().any(|c| c.label == "FindFoo.cmake"));
    assert!(completions.iter().any(|c| c.label == "utils.cmake"));

    // Check that filter_text includes the prefix for proper filtering
    let foo_item = completions.iter().find(|c| c.label == "FindFoo.cmake").unwrap();
    assert_eq!(foo_item.filter_text, "cmake/FindFoo.cmake");
}

#[test]
fn directory_completions_offer_folders_without_marks() {
    let entries = vec![CachedEntry::from_listing("share".to_string(), true, true)];
    let partial_info = PartialPathInfo { path: "sh".to_string(), start_character: 4 };
    let completions = get_directory_completions(entries, "", &partial_info, 3, 6);
    assert_eq!(completions.len(), 1);
    let item = &completions[0];
    assert_eq!(item.label, "share/");
    assert_eq!(item.kind, CompletionKind::Folder);
    assert_eq!(item.detail, None);
    assert_eq!(item.sort_text, "!0_share");
    assert_eq!(item.new_text, "share");
    assert_eq!(
        item.range,
        TextRange {
            start: TextPosition { line: 3, character: 4 },
            end: TextPosition { line: 3, character: 6 },
        }
    );
}

#[test]
fn end_to_end_subdirectory_selection() {
    // A directory with src/ (holding the marker file) and tests/ (without).
    let dir = "/D";
    let found = DirListing {
        is_directory: true,
        entries: vec![
            WalkedEntry {
                path: "/D/src".to_string(),
                name: "src".to_string(),
                is_dir: true,
                has_marker: true,
            },
            WalkedEntry {
                path: "/D/tests".to_string(),
                name: "tests".to_string(),
                is_dir: true,
                has_marker: false,
            },
            WalkedEntry {
                path: "/D/CMakeLists.txt".to_string(),
                name: "CMakeLists.txt".to_string(),
                is_dir: false,
                has_marker: false,
            },
        ],
    };
    let options = PathArgument::Subdirectory.scan_options();
    let mut cache = DirectoryCache::new();
    assert!(scan_directory(&mut cache, dir, true, &options).is_none());
    let entries = complete_scan(&mut cache, dir, &found, &found, &options);
    assert_eq!(entries.len(), 2);
    let src = entries.iter().find(|e| e.name == "src").unwrap();
    let tests = entries.iter().find(|e| e.name == "tests").unwrap();
    assert!(src.has_cmake);
    assert!(!tests.has_cmake);

    let partial_info = PartialPathInfo { path: String::new(), start_character: 17 };
    let items =
        path_completions(PathArgument::Subdirectory, entries, "", &partial_info, 0, 17);
    let src_item = items.iter().find(|c| c.label == "src/").unwrap();
    let tests_item = items.iter().find(|c| c.label == "tests/").unwrap();
    assert_eq!(src_item.sort_text, "!0_src");
    assert_eq!(tests_item.sort_text, "!2_tests");
    assert!(src_item.sort_text < tests_item.sort_text);
}

#[test]
fn completions_rank_marked_directories_then_files_then_directories() {
    let entries = vec![
        CachedEntry::from_listing("plain".to_string(), true, false),
        CachedEntry::from_listing("file.txt".to_string(), false, false),
        CachedEntry::from_listing("proj".to_string(), true, true),
    ];
    let range = TextRange {
        start: TextPosition { line: 1, character: 2 },
        end: TextPosition { line: 1, character: 5 },
    };
    let shown = entries_to_completions(
        entries.clone(),
        "lib/",
        range,
        &CompletionOptions { show_cmake_marker: true },
    );
    assert_eq!(shown.len(), 3);
    assert_eq!(shown[0].label, "plain/");
    assert_eq!(shown[0].sort_text, "!2_plain");
    assert_eq!(shown[0].detail, None);
    assert_eq!(shown[1].label, "file.txt");
    assert_eq!(shown[1].kind, CompletionKind::File);
    assert_eq!(shown[1].sort_text, "!1_file.txt");
    assert_eq!(shown[1].new_text, "lib/file.txt");
    assert_eq!(shown[1].filter_text, "lib/file.txt");
    assert_eq!(shown[2].sort_text, "!0_proj");
    assert_eq!(shown[2].detail.as_deref(), Some("\u{2713}"));
    assert_eq!(shown[2].range, range);

    let unmarked = entries_to_completions(entries, "", range, &CompletionOptions::default());
    assert_eq!(unmarked[2].detail, None);
    assert_eq!(unmarked[2].sort_text, "!0_proj");
}

#[test]
fn path_arguments_choose_their_policies() {
    assert!(PathArgument::Subdirectory.scan_options().check_cmake);
    assert!(PathArgument::Subdirectory.scan_options().dirs_only);
    assert_eq!(
        PathArgument::IncludePath.scan_options().extensions,
        Some(vec!["cmake".to_string()])
    );
    assert_eq!(PathArgument::SourceFile.scan_options().extensions.map(|e| e.len()), Some(21));
    assert_eq!(PathArgument::AnyFile.scan_options().extensions, None);
    assert!(PathArgument::Directory.scan_options().dirs_only);
    assert!(!PathArgument::Directory.scan_options().check_cmake);
}

#[test]
fn search_path_follows_the_partial_input() {
    assert_eq!(resolve_search_path("/base", ""), ("/base".to_string(), String::new()));
    assert_eq!(
        resolve_search_path("/base", "src/"),
        ("/base/src/".to_string(), "src/".to_string())
    );
    assert_eq!(
        resolve_search_path("/base", "src/ma"),
        ("/base/src".to_string(), "src/".to_string())
    );
    assert_eq!(
        resolve_search_path("/base", "a/b/c.txt"),
        ("/base/a/b".to_string(), "a/b/".to_string())
    );
    assert_eq!(resolve_search_path("/base", "main"), ("/base".to_string(), String::new()));
    assert_eq!(
        resolve_search_path("/base", "../li"),
        ("/base/..".to_string(), "../".to_string())
    );
    // An absolute partial path replaces the base.
    assert_eq!(resolve_search_path("/base", "/usr/lo"), ("/usr".to_string(), "/usr/".to_string()));
    // The root has no parent.
    assert_eq!(resolve_search_path("/base", "/"), ("/".to_string(), "/".to_string()));
}

#[test]
fn search_location_starts_beside_the_current_file() {
    let typed = PartialPathInfo { path: "cmake/mo".to_string(), start_character: 9 };
    assert_eq!(
        search_location("/proj/CMakeLists.txt", &typed),
        ("/proj/cmake".to_string(), "cmake/".to_string())
    );
    let nothing = PartialPathInfo { path: String::new(), start_character: 0 };
    assert_eq!(
        search_location("/proj/sub/CMakeLists.txt", &nothing),
        ("/proj/sub".to_string(), String::new())
    );
    // A file without a parent is looked for in the current directory.
    assert_eq!(search_location("/", &nothing), (".".to_string(), String::new()));
    let copy = typed.clone();
    assert_eq!(copy.path, typed.path);
    assert_eq!(copy.start_character, typed.start_character);
}

#[test]
fn extraction_outside_the_text_yields_nothing() {
    let beyond_lines = extract_partial_path("one\ntwo", 2, 5);
    assert_eq!(beyond_lines.path, "");
    assert_eq!(beyond_lines.start_character, 5);

    let beyond_line = extract_partial_path("one\ntwo", 1, 4);
    assert_eq!(beyond_line.path, "");
    assert_eq!(beyond_line.start_character, 4);

    let at_end = extract_partial_path("one\ntwo", 1, 3);
    assert_eq!(at_end.path, "two");
    assert_eq!(at_end.start_character, 0);

    let empty = extract_partial_path("", 0, 0);
    assert_eq!(empty.path, "");
    assert_eq!(empty.start_character, 0);
}

#[test]
fn extraction_stops_at_delimiters_and_strips_quotes() {
    let info = extract_from_line("install(FILES \"a/b\" 'c d", 18);
    assert_eq!(info.path, "a/b");
    assert_eq!(info.start_character, 15);

    // Directly after the closing quotation mark a new argument begins.
    let info = extract_from_line("install(FILES \"a/b\" 'c d", 19);
    assert_eq!(info.path, "");
    assert_eq!(info.start_character, 19);

    let info = extract_from_line("install(FILES \"a/b\" 'c d", 24);
    assert_eq!(info.path, "d");
    assert_eq!(info.start_character, 23);

    let info = extract_from_line("cmd(\tx", 6);
    assert_eq!(info.path, "x");
    assert_eq!(info.start_character, 5);

    let info = extract_from_line("cmd(\"", 5);
    assert_eq!(info.path, "");
    assert_eq!(info.start_character, 5);

    let info = extract_from_line("abc", 2);
    assert_eq!(info.path, "ab");
    assert_eq!(info.start_character, 0);
}

#[test]
fn extraction_counts_bytes() {
    // "é" takes two bytes: the argument starts at byte 5, the line ends at byte 10.
    let line = "f(\u{e9} d\u{e9}/x";
    let info = extract_from_line(line, 10);
    assert_eq!(info.path, "d\u{e9}/x");
    assert_eq!(info.start_character, 5);

    // A cursor inside a character has nothing before it.
    let inside = extract_from_line(line, 3);
    assert_eq!(inside.path, "");
    assert_eq!(inside.start_character, 3);
}

#[test]
fn extraction_reads_lines_as_the_standard_library_does() {
    let source = "first(a\r\nsecond(b\n\nfourth(c";
    for (number, line) in source.lines().enumerate() {
        let cursor = line.len() as u32;
        let whole = extract_partial_path(source, number as u32, cursor);
        let alone = extract_from_line(line, cursor);
        assert_eq!(whole.path, alone.path);
        assert_eq!(whole.start_character, alone.start_character);
    }
    assert_eq!(extract_partial_path(source, 0, 7).path, "a");
    assert_eq!(extract_partial_path(source, 2, 0).path, "");
    assert_eq!(extract_partial_path(source, 3, 8).path, "c");
    assert_eq!(extract_partial_path(source, 4, 0).start_character, 0);
}

#[test]
fn looks_like_path_checks_the_extension() {
    assert!(looks_like_path("a.b"));
    assert!(looks_like_path("name.abcdefghij"));
    assert!(!looks_like_path("name.abcdefghijk"));
    assert!(!looks_like_path("name."));
    assert!(!looks_like_path("v1.2-rc"));
    assert!(!looks_like_path("a.b c"));
    assert!(!looks_like_path("na\u{ef}ve.\u{e9}t\u{e9}"));
    assert!(looks_like_path("a.b.c9"));
    assert!(looks_like_path("~"));
    assert!(looks_like_path("a/"));
}
