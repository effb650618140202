use cmake_lsp_core::complete::path_complete::TextPosition;
use cmake_lsp_core::signature_help::{
    build_signatures, capture_arguments, find_argument_index, find_command_at_position,
    find_command_in_tree, get_signature_help, init_signatures, node_spans, normalize,
    parse_parameters, parse_signatures_from_help, signature_information, signatures_from_parts,
    CMakeSignature, NodeKind, Point, SyntaxNode,
};
use std::iter::zip;

const HELP: &str = "\
cmake_minimum_required
----------------------

Require a minimum version of cmake.

 cmake_minimum_required(VERSION <min>[...<policy_max>] [FATAL_ERROR])

project
-------

Set the name of the project.

 project(<PROJECT-NAME> [<language-name>...])
 project(<PROJECT-NAME>
         [VERSION <major>[.<minor>]]
         [LANGUAGES <language-name>...])

set
---

Set a normal or cache variable to a given value.

 set(<variable> <value>... [PARENT_SCOPE])

if
--

Conditionally execute a group of commands.

 if(<condition>)

message
-------

Log a message.

 message([<mode>] \"message text\" ...)

add_executable
--------------

Add an executable to the project using the specified source files.

 add_executable(<name> [WIN32] [MACOSX_BUNDLE]
                [EXCLUDE_FROM_ALL]
                [source1] [source2 ...])

endif
-----

Ends a list of commands in an if block.
";

fn leaf(kind: NodeKind, row: usize, from: usize, to: usize) -> SyntaxNode {
    SyntaxNode {
        kind,
        start: Point { row, column: from },
        end: Point { row, column: to },
        children: vec![],
    }
}

fn node(kind: NodeKind, row: usize, from: usize, to: usize, children: Vec<SyntaxNode>) -> SyntaxNode {
    SyntaxNode { kind, start: Point { row, column: from }, end: Point { row, column: to }, children }
}

/// The tree of a call `name(args...)` on one row, with the columns of each
/// argument.
fn call(row: usize, name_len: usize, args: &[(NodeKind, usize, usize)], end: usize) -> SyntaxNode {
    let list_from = args.first().map(|a| a.1).unwrap_or(name_len + 1);
    let list_to = args.last().map(|a| a.2).unwrap_or(name_len + 1);
    let arguments = args
        .iter()
        .map(|(kind, from, to)| node(NodeKind::Argument, row, *from, *to, vec![leaf(*kind, row, *from, *to)]))
        .collect();
    node(
        NodeKind::NormalCommand,
        row,
        0,
        end,
        vec![
            leaf(NodeKind::Other, row, 0, name_len),
            leaf(NodeKind::Other, row, name_len, name_len + 1),
            node(NodeKind::ArgumentList, row, list_from, list_to, arguments),
            leaf(NodeKind::Other, row, end - 1, end),
        ],
    )
}

/// The tree of
/// ```text
///
/// project(MyProject)
/// set(MY_VAR "value")
/// ```
fn sample_tree() -> SyntaxNode {
    SyntaxNode {
        kind: NodeKind::Other,
        start: Point { row: 1, column: 0 },
        end: Point { row: 3, column: 0 },
        children: vec![
            call(1, 7, &[(NodeKind::UnquotedArgument, 8, 17)], 18),
            call(
                2,
                3,
                &[(NodeKind::UnquotedArgument, 4, 10), (NodeKind::QuotedArgument, 11, 18)],
                19,
            ),
        ],
    }
}

#[test]
fn test_regex() {
    let re = regex::Regex::new(r"-+").unwrap();
    assert!(re.is_match("---------"));
    assert!(re.is_match("-------------------"));
    let temp = "javascrpt---------it is";
    let splits: Vec<_> = re.split(temp).collect();
    let aftersplit = vec!["javascrpt", "it is"];
    for (split, after) in zip(splits, aftersplit) {
        assert_eq!(split, after);
    }
}

#[test]
fn test_parse_parameters() {
    let params = parse_parameters("<target> <items>...");
    assert_eq!(params, vec!["<target>", "<items>..."]);

    let params2 = parse_parameters("<variable> [<value>...]");
    assert_eq!(params2, vec!["<variable>", "[<value>...]"]);
}

#[test]
fn test_signature_help() {
    let source = r#"
project(MyProject)
set(MY_VAR "value")
"#;
    let signatures = init_signatures(HELP);
    let pos = TextPosition { line: 2, character: 8 };
    let help = get_signature_help(&sample_tree(), source, pos, &signatures);
    // Should find "set" command
    assert!(help.is_some() || signatures.len() == 0);
}

#[test]
fn test_signatures_loaded() {
    let signatures = init_signatures(HELP);

    // Check that signatures are loaded
    let count = signatures.len();
    println!("Loaded {} command signatures", count);
    assert!(count > 0, "No signatures loaded from the help text");

    // Check for common commands
    let common_commands = ["set", "if", "project", "message", "add_executable"];
    for cmd in common_commands {
        assert!(signatures.contains_key(cmd), "Missing signature for common command: {}", cmd);
    }

    // Print a sample signature
    if let Some(sigs) = signatures.get("set") {
        println!("set command has {} signatures:", sigs.len());
        for sig in sigs {
            println!("  label: {}", sig.label);
            println!("  params: {:?}", sig.parameters);
        }
    }
}

#[test]
fn test_find_command_at_position() {
    let source = "set(MY_VAR \"value\")";
    let tree = SyntaxNode {
        kind: NodeKind::Other,
        start: Point { row: 0, column: 0 },
        end: Point { row: 0, column: 19 },
        children: vec![call(
            0,
            3,
            &[(NodeKind::UnquotedArgument, 4, 10), (NodeKind::QuotedArgument, 11, 18)],
            19,
        )],
    };
    // Position inside the parentheses
    let pos = TextPosition { line: 0, character: 5 };
    let result = find_command_at_position(&tree, source, pos);
    println!("find_command_at_position result: {:?}", result);
    assert!(result.is_some(), "Should find command at position");
    let (cmd_name, arg_idx) = result.unwrap();
    assert_eq!(cmd_name, "set", "Should find 'set' command");
    println!("Command: {}, arg_index: {}", cmd_name, arg_idx);
    assert_eq!(arg_idx, 0);
}

#[test]
fn parameters_respect_brackets_and_lines() {
    assert_eq!(parse_parameters(""), Vec::<String>::new());
    assert_eq!(parse_parameters("   \t  "), Vec::<String>::new());
    assert_eq!(parse_parameters("a"), vec!["a"]);
    assert_eq!(parse_parameters("  a \t b  "), vec!["a", "b"]);
    assert_eq!(parse_parameters("[a b] <c d> e"), vec!["[a b]", "<c d>", "e"]);
    assert_eq!(parse_parameters("[a [b c] d] e"), vec!["[a [b c] d]", "e"]);
    assert_eq!(
        parse_parameters("<name> [WIN32]\n    [EXCLUDE_FROM_ALL]\r\n  [source1] [source2 ...]"),
        vec!["<name>", "[WIN32]", "[EXCLUDE_FROM_ALL]", "[source1]", "[source2 ...]"]
    );
    // A bracket that is never closed keeps the rest together.
    assert_eq!(parse_parameters("a [b c d"), vec!["a", "[b c d"]);
    // One that is closed without having been opened does too.
    assert_eq!(parse_parameters("a> b c"), vec!["a> b c"]);
    assert_eq!(parse_parameters("a> b< c d"), vec!["a> b<", "c", "d"]);
    // White space of other kinds is trimmed from a parameter, not split at.
    assert_eq!(parse_parameters("a\u{a0} b\u{3000}c"), vec!["a", "b\u{3000}c"]);
}

#[test]
fn normalize_joins_trimmed_lines() {
    let text: String = normalize("  a b \n\tc\r\n\n d").into_iter().collect();
    assert_eq!(text, "a b c  d");
    assert!(normalize("").is_empty());
    let one: String = normalize("  x  ").into_iter().collect();
    assert_eq!(one, "x");
}

#[test]
fn trimming_agrees_with_the_standard_library() {
    for code in 0..=0x10FFFFu32 {
        if let Some(c) = char::from_u32(code) {
            let parsed = parse_parameters(&format!("{}x{}", c, c));
            if c == '<' || c == '[' || c == '>' || c == ']' {
                continue;
            }
            if c.is_whitespace() {
                assert_eq!(parsed, vec!["x"], "for {:?}", c);
            } else {
                assert_eq!(parsed, vec![format!("{}x{}", c, c)], "for {:?}", c);
            }
        }
    }
}

#[test]
fn help_text_yields_signatures_by_command() {
    let signatures = parse_signatures_from_help(HELP);
    assert_eq!(signatures.len(), 7);

    let set = signatures.get("set").unwrap();
    assert_eq!(set.len(), 1);
    assert_eq!(set[0].label, "set(<variable> <value>... [PARENT_SCOPE])");
    assert_eq!(set[0].parameters, vec!["<variable>", "<value>...", "[PARENT_SCOPE]"]);
    assert!(set[0].documentation.starts_with("Set a normal or cache variable"));
    assert!(set[0].documentation.ends_with("set(<variable> <value>... [PARENT_SCOPE])"));

    let project = signatures.get("project").unwrap();
    assert_eq!(project.len(), 2);
    assert_eq!(project[0].label, "project(<PROJECT-NAME> [<language-name>...])");
    assert_eq!(project[0].parameters, vec!["<PROJECT-NAME>", "[<language-name>...]"]);
    assert_eq!(
        project[1].parameters,
        vec!["<PROJECT-NAME>", "[VERSION <major>[.<minor>]]", "[LANGUAGES <language-name>...]"]
    );

    let lowest = signatures.get("cmake_minimum_required").unwrap();
    assert_eq!(lowest[0].parameters, vec!["VERSION", "<min>[...<policy_max>]", "[FATAL_ERROR]"]);

    // A command of which the text shows no call gets a bare signature.
    let endif = signatures.get("endif").unwrap();
    assert_eq!(endif.len(), 1);
    assert_eq!(endif[0].label, "endif(...)");
    assert!(endif[0].parameters.is_empty());
    assert_eq!(endif[0].documentation, "Ends a list of commands in an if block.");

    assert!(signatures.get("unknown").is_none());
    assert!(!signatures.contains_key("SET"));
}

#[test]
fn help_text_without_headings_yields_nothing() {
    assert_eq!(parse_signatures_from_help("").len(), 0);
    assert_eq!(parse_signatures_from_help("no headings here\n(just text)").len(), 0);
}

#[test]
fn headings_are_keyed_in_lowercase_and_the_last_one_wins() {
    let text = "intro\nFoo\n---\n\n foo(<a>)\n\nFOO\n---\n\n foo(<b> <c>)\n";
    let signatures = parse_signatures_from_help(text);
    assert_eq!(signatures.len(), 1);
    let foo = signatures.get("foo").unwrap();
    assert_eq!(foo.len(), 1);
    assert_eq!(foo[0].label, "foo(<b> <c>)");
}

#[test]
fn parts_pair_each_heading_with_the_text_after_it() {
    let matches = vec!["alpha\n---".to_string(), "Beta\n---".to_string(), "gamma\n--".to_string()];
    let pieces = vec!["preamble".to_string(), " alpha(<x>) ".to_string(), "nothing".to_string()];
    let table = signatures_from_parts(&matches, &pieces);
    assert_eq!(table.len(), 2);
    assert_eq!(table.get("alpha").unwrap()[0].label, "alpha(<x>)");
    assert_eq!(table.get("alpha").unwrap()[0].documentation, "alpha(<x>)");
    assert_eq!(table.get("beta").unwrap()[0].label, "beta(...)");
    assert!(table.get("gamma").is_none());

    assert_eq!(signatures_from_parts(&matches, &vec![]).len(), 0);
    assert_eq!(signatures_from_parts(&vec![], &pieces).len(), 0);
}

#[test]
fn captured_arguments_match_the_name_literally() {
    // The full stop of the name stands for itself, not for any character.
    let groups = capture_arguments("a.b", "a.b(x)\naxb(y)\n  a.b ( z )");
    assert_eq!(groups, vec![Some("x".to_string()), Some(" z ".to_string())]);
    assert_eq!(capture_arguments("set", "nothing to see"), Vec::<Option<String>>::new());
    // Only at the start of a line.
    assert_eq!(capture_arguments("set", "see set(a)\nset(b)"), vec![Some("b".to_string())]);
}

#[test]
fn signatures_are_built_from_captured_arguments() {
    let groups = vec![Some("  <a>  <b> ".to_string()), None, Some(String::new())];
    let built = build_signatures("cmd", "\n  about cmd \n", &groups);
    assert_eq!(built.len(), 2);
    assert_eq!(built[0].label, "cmd(<a>  <b>)");
    assert_eq!(built[0].parameters, vec!["<a>", "<b>"]);
    assert_eq!(built[0].documentation, "about cmd");
    assert_eq!(built[1].label, "cmd()");
    assert!(built[1].parameters.is_empty());

    let bare = build_signatures("cmd", "text", &vec![None]);
    assert_eq!(bare.len(), 1);
    assert_eq!(bare[0].label, "cmd(...)");
    assert_eq!(bare[0].documentation, "text");
}

#[test]
fn argument_index_counts_arguments_that_end_before_the_cursor() {
    // set(MY_VAR "value")
    let command = call(
        0,
        3,
        &[(NodeKind::UnquotedArgument, 4, 10), (NodeKind::QuotedArgument, 11, 18)],
        19,
    );
    assert_eq!(find_argument_index(&command, Point { row: 0, column: 4 }), 0);
    assert_eq!(find_argument_index(&command, Point { row: 0, column: 10 }), 0);
    assert_eq!(find_argument_index(&command, Point { row: 0, column: 11 }), 1);
    assert_eq!(find_argument_index(&command, Point { row: 0, column: 18 }), 1);
    assert_eq!(find_argument_index(&command, Point { row: 0, column: 19 }), 2);
    assert_eq!(find_argument_index(&command, Point { row: 1, column: 0 }), 2);

    let no_arguments = call(0, 3, &[], 5);
    assert_eq!(find_argument_index(&no_arguments, Point { row: 0, column: 4 }), 0);
}

#[test]
fn argument_index_looks_only_at_arguments_in_argument_lists() {
    let command = node(
        NodeKind::NormalCommand,
        0,
        0,
        30,
        vec![
            leaf(NodeKind::Other, 0, 0, 3),
            // Not in an argument list: not counted.
            leaf(NodeKind::Argument, 0, 3, 4),
            node(
                NodeKind::ArgumentList,
                0,
                4,
                20,
                vec![
                    leaf(NodeKind::QuotedArgument, 0, 4, 8),
                    leaf(NodeKind::Other, 0, 8, 9),
                    leaf(NodeKind::UnquotedArgument, 0, 9, 12),
                    leaf(NodeKind::Argument, 1, 0, 5),
                ],
            ),
            node(NodeKind::ArgumentList, 2, 0, 9, vec![leaf(NodeKind::Argument, 2, 0, 9)]),
        ],
    );
    assert_eq!(find_argument_index(&command, Point { row: 0, column: 8 }), 0);
    assert_eq!(find_argument_index(&command, Point { row: 0, column: 9 }), 1);
    assert_eq!(find_argument_index(&command, Point { row: 0, column: 13 }), 2);
    assert_eq!(find_argument_index(&command, Point { row: 1, column: 6 }), 3);
    assert_eq!(find_argument_index(&command, Point { row: 2, column: 9 }), 3);
    assert_eq!(find_argument_index(&command, Point { row: 2, column: 10 }), 4);
}

#[test]
fn spans_includes_both_ends() {
    let n = node(NodeKind::Other, 1, 4, 9, vec![]);
    assert!(node_spans(&n, Point { row: 1, column: 4 }));
    assert!(node_spans(&n, Point { row: 1, column: 9 }));
    assert!(!node_spans(&n, Point { row: 1, column: 3 }));
    assert!(!node_spans(&n, Point { row: 1, column: 10 }));
    assert!(!node_spans(&n, Point { row: 0, column: 5 }));
    assert!(!node_spans(&n, Point { row: 2, column: 5 }));

    let tall = SyntaxNode {
        kind: NodeKind::Other,
        start: Point { row: 1, column: 4 },
        end: Point { row: 3, column: 2 },
        children: vec![],
    };
    assert!(node_spans(&tall, Point { row: 2, column: 0 }));
    assert!(node_spans(&tall, Point { row: 2, column: 99 }));
    assert!(!node_spans(&tall, Point { row: 3, column: 3 }));
    assert!(node_spans(&tall, Point { row: 3, column: 0 }));
}

#[test]
fn command_lookup_descends_and_lowers_the_name() {
    let lines: Vec<String> =
        ["if(A)", "  MESSAGE(\"hi\" there)", "endif()"].iter().map(|l| l.to_string()).collect();
    let mut message = call(1, 0, &[], 1);
    // MESSAGE("hi" there) starts at column 2.
    message.start = Point { row: 1, column: 2 };
    message.end = Point { row: 1, column: 21 };
    message.children = vec![
        leaf(NodeKind::Other, 1, 2, 9),
        node(
            NodeKind::ArgumentList,
            1,
            10,
            20,
            vec![leaf(NodeKind::QuotedArgument, 1, 10, 14), leaf(NodeKind::UnquotedArgument, 1, 15, 20)],
        ),
    ];
    let block = SyntaxNode {
        kind: NodeKind::Other,
        start: Point { row: 0, column: 0 },
        end: Point { row: 2, column: 7 },
        children: vec![call(0, 2, &[(NodeKind::UnquotedArgument, 3, 4)], 5), message, call(2, 5, &[], 7)],
    };
    let root = node(NodeKind::Other, 0, 0, 0, vec![]);
    let root = SyntaxNode { end: Point { row: 3, column: 0 }, children: vec![block], ..root };

    assert_eq!(
        find_command_in_tree(&root, Point { row: 1, column: 16 }, &lines),
        Some(("message".to_string(), 1))
    );
    assert_eq!(
        find_command_in_tree(&root, Point { row: 0, column: 3 }, &lines),
        Some(("if".to_string(), 0))
    );
    assert_eq!(
        find_command_in_tree(&root, Point { row: 2, column: 6 }, &lines),
        Some(("endif".to_string(), 0))
    );
    // Between the commands there is none.
    assert_eq!(find_command_in_tree(&root, Point { row: 1, column: 0 }, &lines), None);
    assert_eq!(find_command_in_tree(&root, Point { row: 5, column: 0 }, &lines), None);
}

#[test]
fn command_whose_name_lies_outside_the_source_is_passed_over() {
    let lines = vec!["set(x)".to_string()];
    // The name is said to span columns 0 to 9 of a line of six bytes.
    let mut broken = call(0, 9, &[], 12);
    broken.children.push(call(0, 3, &[(NodeKind::UnquotedArgument, 4, 5)], 6));
    let root = node(NodeKind::Other, 0, 0, 12, vec![broken]);
    assert_eq!(
        find_command_in_tree(&root, Point { row: 0, column: 4 }, &lines),
        Some(("set".to_string(), 0))
    );

    // One on a row that the source does not have.
    let beyond = node(NodeKind::Other, 0, 0, 9, vec![call(7, 3, &[], 5)]);
    assert_eq!(find_command_in_tree(&beyond, Point { row: 7, column: 1 }, &lines), None);
}

#[test]
fn signature_help_shows_every_signature_of_the_command() {
    let source = "\nproject(MyProject)\nset(MY_VAR \"value\")\n";
    let signatures = init_signatures(HELP);

    let help = get_signature_help(
        &sample_tree(),
        source,
        TextPosition { line: 2, character: 12 },
        &signatures,
    )
    .unwrap();
    assert_eq!(help.active_signature, Some(0));
    assert_eq!(help.active_parameter, Some(1));
    assert_eq!(help.signatures.len(), 1);
    assert_eq!(help.signatures[0].label, "set(<variable> <value>... [PARENT_SCOPE])");
    assert_eq!(
        help.signatures[0].parameters,
        Some(vec!["<variable>".to_string(), "<value>...".to_string(), "[PARENT_SCOPE]".to_string()])
    );
    assert_eq!(help.signatures[0].active_parameter, None);

    let project = get_signature_help(
        &sample_tree(),
        source,
        TextPosition { line: 1, character: 9 },
        &signatures,
    )
    .unwrap();
    assert_eq!(project.signatures.len(), 2);
    assert_eq!(project.active_parameter, Some(0));

    // No command at the position.
    assert!(get_signature_help(
        &sample_tree(),
        source,
        TextPosition { line: 0, character: 0 },
        &signatures
    )
    .is_none());

    // A command that the table does not know.
    let unknown = init_signatures("");
    assert!(get_signature_help(
        &sample_tree(),
        source,
        TextPosition { line: 2, character: 8 },
        &unknown
    )
    .is_none());
}

#[test]
fn signature_without_parameters_shows_none() {
    let bare = CMakeSignature {
        label: "endif(...)".to_string(),
        documentation: "Ends a block.".to_string(),
        parameters: vec![],
    };
    let shown = signature_information(&bare);
    assert_eq!(shown.label, "endif(...)");
    assert_eq!(shown.documentation, "Ends a block.");
    assert_eq!(shown.parameters, None);
    assert_eq!(shown.active_parameter, None);

    let copy = bare.clone();
    assert_eq!(copy.label, bare.label);
}
