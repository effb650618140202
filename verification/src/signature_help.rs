//! Signatures of commands, read from the build tool's help text, and the
//! lookup of the command and argument under the cursor in a syntax tree.

use vstd::prelude::*;
use crate::complete::path_complete::TextPosition;
use crate::pattern::{
    escape, find_all, first_groups, regex_escaped, regex_first_groups, regex_matches,
    regex_pieces, split_all,
};
use crate::text::{
    chars_of, first_line, first_line_of, joined, lines_of, lowercase, lowercase_of, slice_bytes,
    split_lines, string_of_range, text_between, trim, trim_bounds, trimmed, CharClass,
};
use crate::text_map::{chars_equal, TextMap};

verus! {

/// One way to call a command: how the call is written, what the command
/// does, and its parameters in order.
#[derive(Debug)]
pub struct CMakeSignature {
    pub label: String,
    pub documentation: String,
    pub parameters: Vec<String>,
}

/// What a `CMakeSignature` holds, as mathematical values.
pub struct SignatureView {
    pub label: Seq<char>,
    pub documentation: Seq<char>,
    pub parameters: Seq<Seq<char>>,
}

impl View for CMakeSignature {
    type V = SignatureView;

    open spec fn view(&self) -> SignatureView {
        SignatureView {
            label: self.label@,
            documentation: self.documentation@,
            parameters: self.parameters.deep_view(),
        }
    }
}

impl DeepView for CMakeSignature {
    type V = SignatureView;

    open spec fn deep_view(&self) -> SignatureView {
        self@
    }
}

/// A copy of a list of texts.
pub fn clone_texts(texts: &Vec<String>) -> (r: Vec<String>)
    ensures
        r.deep_view() == texts.deep_view(),
{
    let mut copy: Vec<String> = Vec::new();
    let mut i: usize = 0;
    while i < texts.len()
        invariant
            i <= texts.len(),
            copy.len() == i,
            forall|j: int| 0 <= j < i ==> copy[j]@ == texts[j]@,
        decreases texts.len() - i,
    {
        copy.push(texts[i].clone());
        i += 1;
    }
    assert(copy.deep_view() =~= texts.deep_view());
    copy
}

impl Clone for CMakeSignature {
    fn clone(&self) -> (r: Self)
        ensures
            r@ == self@,
    {
        CMakeSignature {
            label: self.label.clone(),
            documentation: self.documentation.clone(),
            parameters: clone_texts(&self.parameters),
        }
    }
}

/// `trimmed` as a function.
pub open spec fn trim_each() -> spec_fn(Seq<char>) -> Seq<char> {
    |line: Seq<char>| trimmed(line)
}

/// The text of an argument list on one line: its lines, each without the
/// white space around it, with one space between each two.
pub open spec fn normalized(args: Seq<char>) -> Seq<char> {
    joined(lines_of(args).map_values(trim_each()), seq![' '])
}

/// How far an argument list has been cut into parameters.
pub struct ParamScan {
    /// The parameters that are complete.
    pub done: Seq<Seq<char>>,
    /// The characters of the parameter that is still open.
    pub current: Seq<char>,
    /// How many more angle brackets were opened than closed.
    pub angle: int,
    /// How many more square brackets were opened than closed.
    pub square: int,
}

/// The parameters after the open one is closed: it joins them without the
/// white space around it, unless nothing is left of it.
pub open spec fn closed_param(done: Seq<Seq<char>>, current: Seq<char>) -> Seq<Seq<char>> {
    if trimmed(current).len() > 0 {
        done.push(trimmed(current))
    } else {
        done
    }
}

/// The scan after one more character. Brackets are counted and kept; a
/// space or a tab outside all brackets closes the open parameter; every
/// other character belongs to the open parameter.
pub open spec fn param_step(s: ParamScan, c: char) -> ParamScan {
    if c == '<' {
        ParamScan { current: s.current.push(c), angle: s.angle + 1, ..s }
    } else if c == '>' {
        ParamScan { current: s.current.push(c), angle: s.angle - 1, ..s }
    } else if c == '[' {
        ParamScan { current: s.current.push(c), square: s.square + 1, ..s }
    } else if c == ']' {
        ParamScan { current: s.current.push(c), square: s.square - 1, ..s }
    } else if (c == ' ' || c == '\t') && s.angle == 0 && s.square == 0 {
        ParamScan { done: closed_param(s.done, s.current), current: Seq::empty(), ..s }
    } else {
        ParamScan { current: s.current.push(c), ..s }
    }
}

/// The scan of a text from its start to its end.
pub open spec fn scan_parameters(text: Seq<char>) -> ParamScan
    decreases text.len(),
{
    if text.len() == 0 {
        ParamScan { done: Seq::empty(), current: Seq::empty(), angle: 0, square: 0 }
    } else {
        param_step(scan_parameters(text.drop_last()), text.last())
    }
}

/// The parameters in a text that holds no line break: its parts between
/// spaces and tabs that stand outside all brackets.
pub open spec fn split_parameters(text: Seq<char>) -> Seq<Seq<char>> {
    let scan = scan_parameters(text);
    closed_param(scan.done, scan.current)
}

/// The parameters that the text of an argument list names.
pub open spec fn parameters_of(args: Seq<char>) -> Seq<Seq<char>> {
    split_parameters(normalized(args))
}

/// The brackets of a text never differ by more than its length.
pub proof fn lemma_depth_bounded(text: Seq<char>)
    ensures
        -text.len() <= scan_parameters(text).angle <= text.len(),
        -text.len() <= scan_parameters(text).square <= text.len(),
    decreases text.len(),
{
    if text.len() > 0 {
        lemma_depth_bounded(text.drop_last());
    }
}

/// The text of an argument list on one line.
pub fn normalize(args: &str) -> (r: Vec<char>)
    ensures
        r@ == normalized(args@),
{
    let lines = split_lines(args);
    let ghost parts = lines_of(args@).map_values(trim_each());
    let mut out: Vec<char> = Vec::new();
    let mut i: usize = 0;
    assert(out@ =~= joined(parts.take(0), seq![' ']));
    while i < lines.len()
        invariant
            i <= lines.len(),
            lines.deep_view() == lines_of(args@),
            parts == lines_of(args@).map_values(trim_each()),
            out@ == joined(parts.take(i as int), seq![' ']),
        decreases lines.len() - i,
    {
        let chars = chars_of(lines[i].as_str());
        let bounds = trim_bounds(&chars, CharClass::Whitespace);
        let ghost before = out@;
        proof {
            assert(lines.deep_view()[i as int] == lines[i as int]@);
            assert(parts[i as int] == trimmed(chars@));
            assert(parts.take(i + 1).drop_last() =~= parts.take(i as int));
            assert(parts.take(i + 1).last() == parts[i as int]);
            assert(parts.take(1)[0] == parts[0]);
        }
        if i > 0 {
            out.push(' ');
        }
        let ghost opened = out@;
        let mut k: usize = bounds.0;
        while k < bounds.1
            invariant
                bounds.0 <= k <= bounds.1 <= chars.len(),
                out@ == opened + chars@.subrange(bounds.0 as int, k as int),
            decreases bounds.1 - k,
        {
            out.push(chars[k]);
            assert(chars@.subrange(bounds.0 as int, k + 1) =~= chars@.subrange(
                bounds.0 as int,
                k as int,
            ).push(chars@[k as int]));
            k += 1;
        }
        proof {
            if i > 0 {
                assert(out@ =~= before + seq![' '] + parts[i as int]);
            } else {
                assert(before =~= Seq::<char>::empty());
                assert(out@ =~= parts[0]);
            }
        }
        i += 1;
    }
    assert(parts.take(i as int) =~= parts);
    out
}

/// Closes the open parameter: it joins `done` without the white space around
/// it, unless nothing is left of it.
fn close_param(done: &mut Vec<String>, current: &Vec<char>)
    ensures
        final(done).deep_view() == closed_param(old(done).deep_view(), current@),
{
    let bounds = trim_bounds(current, CharClass::Whitespace);
    let ghost before = done.deep_view();
    if bounds.1 > bounds.0 {
        done.push(string_of_range(current, bounds.0, bounds.1));
        assert(done.deep_view() =~= before.push(trimmed(current@)));
    }
}

/// The parameters in a text that holds no line break.
pub fn split_parameter_text(text: &Vec<char>) -> (r: Vec<String>)
    ensures
        r.deep_view() == split_parameters(text@),
{
    let mut parameters: Vec<String> = Vec::new();
    let mut current: Vec<char> = Vec::new();
    let mut angle_depth: i128 = 0;
    let mut square_depth: i128 = 0;
    let mut i: usize = 0;
    assert(parameters.deep_view() =~= Seq::<Seq<char>>::empty());
    while i < text.len()
        invariant
            i <= text.len(),
            parameters.deep_view() == scan_parameters(text@.take(i as int)).done,
            current@ == scan_parameters(text@.take(i as int)).current,
            angle_depth == scan_parameters(text@.take(i as int)).angle,
            square_depth == scan_parameters(text@.take(i as int)).square,
        decreases text.len() - i,
    {
        let ch = text[i];
        proof {
            assert(text@.take(i + 1).drop_last() =~= text@.take(i as int));
            assert(text@.take(i + 1).last() == ch);
            lemma_depth_bounded(text@.take(i as int));
        }
        if ch == '<' {
            angle_depth += 1;
            current.push(ch);
        } else if ch == '>' {
            angle_depth -= 1;
            current.push(ch);
        } else if ch == '[' {
            square_depth += 1;
            current.push(ch);
        } else if ch == ']' {
            square_depth -= 1;
            current.push(ch);
        } else if (ch == ' ' || ch == '\t') && angle_depth == 0 && square_depth == 0 {
            close_param(&mut parameters, &current);
            current.clear();
        } else {
            current.push(ch);
        }
        i += 1;
    }
    assert(text@.take(i as int) =~= text@);
    close_param(&mut parameters, &current);
    parameters
}

/// The parameters that the text of an argument list names.
pub fn parse_parameters(args_str: &str) -> (r: Vec<String>)
    ensures
        r.deep_view() == parameters_of(args_str@),
{
    let normalized = normalize(args_str);
    split_parameter_text(&normalized)
}

/// The pattern of the heading of a command in the help text: its name on a
/// line of its own, underlined with hyphens.
pub const HEADING_PATTERN: &'static str = "([a-zA-Z_][a-zA-Z0-9_]*)\\n-+";

/// The pattern of a signature of any command, for a name that cannot be made
/// into a pattern.
pub const ANY_SIGNATURE_PATTERN: &'static str = "^\\s*\\w+\\s*\\(([^)]*)\\)";

/// What stands before the name in the pattern of a command's signature.
pub const SIGNATURE_PATTERN_HEAD: &'static str = "(?m)^\\s*";

/// What stands after the name in the pattern of a command's signature.
pub const SIGNATURE_PATTERN_TAIL: &'static str = "\\s*\\(([^)]*)\\)";

/// The name of a command, from the match of its heading: the first line, in
/// lowercase.
pub open spec fn heading_key(matched: Seq<char>) -> Seq<char> {
    lowercase_of(first_line(matched))
}

/// `heading_key` as a function.
pub open spec fn as_key() -> spec_fn(Seq<char>) -> Seq<char> {
    |matched: Seq<char>| heading_key(matched)
}

/// The pattern of the signatures of the command called `key`: the name at
/// the start of a line, then its arguments in parentheses.
pub open spec fn signature_pattern(key: Seq<char>) -> Seq<char> {
    SIGNATURE_PATTERN_HEAD@ + regex_escaped(key) + SIGNATURE_PATTERN_TAIL@
}

/// The argument lists of the signatures of `key` in `content`, as the
/// pattern captures them.
pub open spec fn captured_arguments(key: Seq<char>, content: Seq<char>) -> Seq<Option<Seq<char>>> {
    match regex_first_groups(signature_pattern(key), content) {
        Some(groups) => groups,
        None => match regex_first_groups(ANY_SIGNATURE_PATTERN@, content) {
            Some(groups) => groups,
            None => Seq::empty(),
        },
    }
}

/// The signature of `key` with the argument list `args`, described by
/// `content`.
pub open spec fn signature_with(key: Seq<char>, content: Seq<char>, args: Seq<char>) -> SignatureView {
    SignatureView {
        label: key + "("@ + trimmed(args) + ")"@,
        documentation: trimmed(content),
        parameters: parameters_of(trimmed(args)),
    }
}

/// The signature that stands for a command of which the help text shows no
/// call.
pub open spec fn bare_signature(key: Seq<char>, content: Seq<char>) -> SignatureView {
    SignatureView {
        label: key + "(...)"@,
        documentation: trimmed(content),
        parameters: Seq::empty(),
    }
}

/// The signatures among the first `n` captured argument lists.
pub open spec fn signatures_among(
    key: Seq<char>,
    content: Seq<char>,
    groups: Seq<Option<Seq<char>>>,
    n: nat,
) -> Seq<SignatureView>
    decreases n,
{
    if n == 0 || n > groups.len() {
        Seq::empty()
    } else {
        let before = signatures_among(key, content, groups, (n - 1) as nat);
        match groups[n - 1] {
            Some(args) => before.push(signature_with(key, content, args)),
            None => before,
        }
    }
}

/// The signatures of `key`, one for each captured argument list, or the
/// bare signature where there is none.
pub open spec fn signatures_from(
    key: Seq<char>,
    content: Seq<char>,
    groups: Seq<Option<Seq<char>>>,
) -> Seq<SignatureView> {
    let found = signatures_among(key, content, groups, groups.len());
    if found.len() == 0 {
        seq![bare_signature(key, content)]
    } else {
        found
    }
}

/// The signatures of the first `n` commands, by name: each name with the
/// text that follows its heading. A name that comes twice keeps the
/// signatures of its last heading.
pub open spec fn table_among(keys: Seq<Seq<char>>, contents: Seq<Seq<char>>, n: nat) -> Map<
    Seq<char>,
    Seq<SignatureView>,
>
    decreases n,
{
    if n == 0 || n > keys.len() || n > contents.len() {
        Map::empty()
    } else {
        table_among(keys, contents, (n - 1) as nat).insert(
            keys[n - 1],
            signatures_from(
                keys[n - 1],
                contents[n - 1],
                captured_arguments(keys[n - 1], contents[n - 1]),
            ),
        )
    }
}

/// The lesser of two lengths.
pub open spec fn shorter(a: nat, b: nat) -> nat {
    if a <= b {
        a
    } else {
        b
    }
}

/// All but the first of `pieces`.
pub open spec fn after_first(pieces: Seq<Seq<char>>) -> Seq<Seq<char>> {
    if pieces.len() > 0 {
        pieces.skip(1)
    } else {
        Seq::empty()
    }
}

/// The signatures of the commands whose headings matched, from the matches
/// and from the parts of the help text that no heading covers: the part
/// before the first heading belongs to no command.
pub open spec fn table_from_parts(matches: Seq<Seq<char>>, pieces: Seq<Seq<char>>) -> Map<
    Seq<char>,
    Seq<SignatureView>,
> {
    let keys = matches.map_values(as_key());
    let contents = after_first(pieces);
    table_among(keys, contents, shorter(keys.len(), contents.len()))
}

/// The signatures of the commands that a help text describes, by name.
pub open spec fn signatures_in_help(raw_info: Seq<char>) -> Map<Seq<char>, Seq<SignatureView>> {
    match (regex_matches(HEADING_PATTERN@, raw_info), regex_pieces(HEADING_PATTERN@, raw_info)) {
        (Some(matches), Some(pieces)) => table_from_parts(matches, pieces),
        _ => Map::empty(),
    }
}

/// The signatures of `key`, from the argument lists that were captured in
/// `content`.
pub fn build_signatures(key: &str, content: &str, groups: &Vec<Option<String>>) -> (r: Vec<
    CMakeSignature,
>)
    ensures
        r.deep_view() == signatures_from(key@, content@, groups.deep_view()),
{
    let ghost caught = groups.deep_view();
    let documentation = trim(content);
    let mut found: Vec<CMakeSignature> = Vec::new();
    let mut i: usize = 0;
    assert(found.deep_view() =~= signatures_among(key@, content@, caught, 0));
    while i < groups.len()
        invariant
            i <= groups.len(),
            caught == groups.deep_view(),
            documentation@ == trimmed(content@),
            found.deep_view() == signatures_among(key@, content@, caught, i as nat),
        decreases groups.len() - i,
    {
        let ghost before = found.deep_view();
        assert(caught[i as int] == groups[i as int].deep_view());
        match &groups[i] {
            Some(args) => {
                let args_str = trim(args.as_str());
                let label = key.to_owned().concat("(").concat(args_str.as_str()).concat(")");
                let parameters = parse_parameters(args_str.as_str());
                found.push(
                    CMakeSignature { label, documentation: documentation.clone(), parameters },
                );
                assert(found.deep_view() =~= before.push(signature_with(key@, content@, args@)));
            },
            None => {},
        }
        i += 1;
    }
    if found.len() == 0 {
        let parameters: Vec<String> = Vec::new();
        assert(parameters.deep_view() =~= Seq::<Seq<char>>::empty());
        found.push(
            CMakeSignature { label: key.to_owned().concat("(...)"), documentation, parameters },
        );
        assert(found.deep_view() =~= seq![bare_signature(key@, content@)]);
    }
    found
}

/// The argument lists of the signatures of `key` in `content`.
pub fn capture_arguments(key: &str, content: &str) -> (r: Vec<Option<String>>)
    ensures
        r.deep_view() == captured_arguments(key@, content@),
{
    let pattern = SIGNATURE_PATTERN_HEAD.to_owned().concat(escape(key).as_str()).concat(
        SIGNATURE_PATTERN_TAIL,
    );
    match first_groups(pattern.as_str(), content) {
        Some(groups) => groups,
        None => match first_groups(ANY_SIGNATURE_PATTERN, content) {
            Some(groups) => groups,
            None => {
                let nothing: Vec<Option<String>> = Vec::new();
                assert(nothing.deep_view() =~= Seq::<Option<Seq<char>>>::empty());
                nothing
            },
        },
    }
}

/// The signatures of the commands whose headings matched, from the matches
/// and from the parts of the help text that no heading covers.
pub fn signatures_from_parts(matches: &Vec<String>, pieces: &Vec<String>) -> (r: TextMap<
    Vec<CMakeSignature>,
>)
    ensures
        r@ == table_from_parts(matches.deep_view(), pieces.deep_view()),
{
    let ghost keys = matches.deep_view().map_values(as_key());
    let ghost contents = after_first(pieces.deep_view());
    let mut table: TextMap<Vec<CMakeSignature>> = TextMap::new();
    let mut i: usize = 0;
    while i < matches.len() && i + 1 < pieces.len()
        invariant
            i <= matches.len(),
            i <= contents.len(),
            keys == matches.deep_view().map_values(as_key()),
            contents == after_first(pieces.deep_view()),
            table@ == table_among(keys, contents, i as nat),
        decreases matches.len() - i,
    {
        let key = lowercase(first_line_of(matches[i].as_str()).as_str());
        let content = &pieces[i + 1];
        proof {
            assert(matches.deep_view()[i as int] == matches[i as int]@);
            assert(pieces.deep_view()[i + 1] == pieces[i + 1]@);
            assert(keys[i as int] == key@);
            assert(contents[i as int] == content@);
        }
        let groups = capture_arguments(key.as_str(), content.as_str());
        let signatures = build_signatures(key.as_str(), content.as_str(), &groups);
        table = table.insert(key, signatures);
        i += 1;
    }
    table
}

/// The signatures of the commands that a help text describes, by name.
pub fn parse_signatures_from_help(raw_info: &str) -> (r: TextMap<Vec<CMakeSignature>>)
    ensures
        r@ == signatures_in_help(raw_info@),
{
    let matches = find_all(HEADING_PATTERN, raw_info);
    let pieces = split_all(HEADING_PATTERN, raw_info);
    match (matches, pieces) {
        (Some(matches), Some(pieces)) => signatures_from_parts(&matches, &pieces),
        _ => TextMap::new(),
    }
}

/// The table of signatures for a session, from the help text of the build
/// tool.
pub fn init_signatures(help_output: &str) -> (r: TextMap<Vec<CMakeSignature>>)
    ensures
        r@ == signatures_in_help(help_output@),
{
    parse_signatures_from_help(help_output)
}

/// A place in a source text: a row and a column, both from zero, the column
/// counted in bytes.
#[derive(Debug, Clone, Copy, PartialEq, Eq, Structural)]
pub struct Point {
    pub row: usize,
    pub column: usize,
}

/// What a node of the syntax tree stands for.
#[derive(Debug, Clone, Copy, PartialEq, Eq, Structural)]
pub enum NodeKind {
    /// The call of a command.
    NormalCommand,
    /// The arguments of a call, between its parentheses.
    ArgumentList,
    Argument,
    UnquotedArgument,
    QuotedArgument,
    Other,
}

/// The kind that the grammar's name for a node stands for.
pub open spec fn kind_named(name: Seq<char>) -> NodeKind {
    if name == "normal_command"@ {
        NodeKind::NormalCommand
    } else if name == "argument_list"@ {
        NodeKind::ArgumentList
    } else if name == "argument"@ {
        NodeKind::Argument
    } else if name == "unquoted_argument"@ {
        NodeKind::UnquotedArgument
    } else if name == "quoted_argument"@ {
        NodeKind::QuotedArgument
    } else {
        NodeKind::Other
    }
}

/// The kind that the grammar's name for a node stands for.
pub fn node_kind(name: &str) -> (r: NodeKind)
    ensures
        r == kind_named(name@),
{
    if chars_equal(name, "normal_command") {
        NodeKind::NormalCommand
    } else if chars_equal(name, "argument_list") {
        NodeKind::ArgumentList
    } else if chars_equal(name, "argument") {
        NodeKind::Argument
    } else if chars_equal(name, "unquoted_argument") {
        NodeKind::UnquotedArgument
    } else if chars_equal(name, "quoted_argument") {
        NodeKind::QuotedArgument
    } else {
        NodeKind::Other
    }
}

/// A node of the syntax tree of a source text, with the places where it
/// starts and ends.
#[derive(Debug)]
pub struct SyntaxNode {
    pub kind: NodeKind,
    pub start: Point,
    pub end: Point,
    pub children: Vec<SyntaxNode>,
}

/// Whether `point` lies within `node`, its ends included.
pub open spec fn spans(node: SyntaxNode, point: Point) -> bool {
    &&& node.start.row <= point.row <= node.end.row
    &&& point.row == node.start.row ==> node.start.column <= point.column
    &&& point.row == node.end.row ==> point.column <= node.end.column
}

/// Whether a node of this kind is one argument of a call.
pub open spec fn is_argument_kind(kind: NodeKind) -> bool {
    kind == NodeKind::Argument || kind == NodeKind::UnquotedArgument || kind
        == NodeKind::QuotedArgument
}

/// Whether a node is one argument of a call.
pub open spec fn is_argument() -> spec_fn(SyntaxNode) -> bool {
    |node: SyntaxNode| is_argument_kind(node.kind)
}

/// Whether `node` ends at `point` or after it.
pub open spec fn reaches(node: SyntaxNode, point: Point) -> bool {
    point.row < node.end.row || (point.row == node.end.row && point.column <= node.end.column)
}

/// The arguments under the first `n` children of a call, in order: the
/// arguments in each of its argument lists.
pub open spec fn arguments_among(children: Seq<SyntaxNode>, n: nat) -> Seq<SyntaxNode>
    decreases n,
{
    if n == 0 || n > children.len() {
        Seq::empty()
    } else {
        let before = arguments_among(children, (n - 1) as nat);
        let child = children[n - 1];
        if child.kind == NodeKind::ArgumentList {
            before + child.children@.filter(is_argument())
        } else {
            before
        }
    }
}

/// The arguments of a call, in order.
pub open spec fn arguments_of(command: SyntaxNode) -> Seq<SyntaxNode> {
    arguments_among(command.children@, command.children@.len())
}

/// The place of the first of `args` that ends at `point` or after it, or
/// their number where none does.
pub open spec fn first_reached(args: Seq<SyntaxNode>, point: Point) -> nat
    decreases args.len(),
{
    if args.len() == 0 {
        0
    } else if reaches(args[0], point) {
        0
    } else {
        1 + first_reached(args.drop_first(), point)
    }
}

/// A count as a `u32`, at most `u32::MAX`.
pub open spec fn clamped(n: nat) -> u32 {
    if n > u32::MAX {
        u32::MAX
    } else {
        n as u32
    }
}

/// The index of the argument of `command` that `point` lies in or before:
/// the number of arguments that end before `point`.
pub open spec fn argument_index(command: SyntaxNode, point: Point) -> u32 {
    clamped(first_reached(arguments_of(command), point))
}

/// Where none of the first `n` arguments reaches the point and the next one
/// does, `n` is the place of the first that does.
pub proof fn lemma_first_reached_at(args: Seq<SyntaxNode>, point: Point, n: int)
    requires
        0 <= n < args.len(),
        forall|j: int| 0 <= j < n ==> !reaches(#[trigger] args[j], point),
        reaches(args[n], point),
    ensures
        first_reached(args, point) == n,
    decreases n,
{
    if n > 0 {
        let rest = args.drop_first();
        assert forall|j: int| 0 <= j < n - 1 implies !reaches(#[trigger] rest[j], point) by {
            assert(rest[j] == args[j + 1]);
        }
        assert(rest[n - 1] == args[n]);
        lemma_first_reached_at(rest, point, n - 1);
    }
}

/// Where no argument reaches the point, the place is their number.
pub proof fn lemma_none_reached(args: Seq<SyntaxNode>, point: Point)
    requires
        forall|j: int| 0 <= j < args.len() ==> !reaches(#[trigger] args[j], point),
    ensures
        first_reached(args, point) == args.len(),
    decreases args.len(),
{
    if args.len() > 0 {
        let rest = args.drop_first();
        assert forall|j: int| 0 <= j < rest.len() implies !reaches(#[trigger] rest[j], point) by {
            assert(rest[j] == args[j + 1]);
        }
        lemma_none_reached(rest, point);
    }
}

/// The arguments under the first children of a call come first among the
/// arguments under more of them.
pub proof fn lemma_arguments_grow(children: Seq<SyntaxNode>, n: nat, m: nat)
    requires
        n <= m <= children.len(),
    ensures
        arguments_among(children, n).is_prefix_of(arguments_among(children, m)),
    decreases m,
{
    if n < m {
        lemma_arguments_grow(children, n, (m - 1) as nat);
    }
}

/// Whether `point` lies within `node`.
pub fn node_spans(node: &SyntaxNode, point: Point) -> (r: bool)
    ensures
        r == spans(*node, point),
{
    if point.row < node.start.row || point.row > node.end.row {
        return false;
    }
    if point.row == node.start.row && point.column < node.start.column {
        return false;
    }
    if point.row == node.end.row && point.column > node.end.column {
        return false;
    }
    true
}

/// The index of the argument of `command_node` that `point` lies in or
/// before.
pub fn find_argument_index(command_node: &SyntaxNode, point: Point) -> (r: u32)
    ensures
        r == argument_index(*command_node, point),
{
    let ghost children = command_node.children@;
    let ghost all = arguments_of(*command_node);
    let mut arg_index: u32 = 0;
    let mut i: usize = 0;
    while i < command_node.children.len()
        invariant
            i <= command_node.children.len(),
            children == command_node.children@,
            all == arguments_of(*command_node),
            forall|j: int|
                0 <= j < arguments_among(children, i as nat).len() ==> !reaches(
                    #[trigger] arguments_among(children, i as nat)[j],
                    point,
                ),
            arg_index == clamped(arguments_among(children, i as nat).len()),
        decreases command_node.children.len() - i,
    {
        let child = &command_node.children[i];
        let ghost before = arguments_among(children, i as nat);
        if child.kind == NodeKind::ArgumentList {
            let ghost list = child.children@;
            let mut k: usize = 0;
            assert(list.take(0).filter(is_argument()) =~= Seq::<SyntaxNode>::empty()) by {
                reveal(Seq::filter);
            }
            assert(before + list.take(0).filter(is_argument()) =~= before);
            while k < child.children.len()
                invariant
                    k <= child.children.len(),
                    i < command_node.children.len(),
                    children == command_node.children@,
                    all == arguments_of(*command_node),
                    child == &command_node.children[i as int],
                    child.kind == NodeKind::ArgumentList,
                    list == child.children@,
                    before == arguments_among(children, i as nat),
                    forall|j: int|
                        0 <= j < (before + list.take(k as int).filter(is_argument())).len()
                            ==> !reaches(
                            #[trigger] (before + list.take(k as int).filter(is_argument()))[j],
                            point,
                        ),
                    arg_index == clamped(
                        (before + list.take(k as int).filter(is_argument())).len(),
                    ),
                decreases child.children.len() - k,
            {
                let arg_child = &child.children[k];
                let ghost seen = before + list.take(k as int).filter(is_argument());
                proof {
                    assert(list.take(k + 1) =~= list.take(k as int).push(*arg_child));
                    list.take(k as int).lemma_filter_push(*arg_child, is_argument());
                }
                if arg_child.kind == NodeKind::Argument || arg_child.kind
                    == NodeKind::UnquotedArgument || arg_child.kind == NodeKind::QuotedArgument {
                    let ghost next = before + list.take(k + 1).filter(is_argument());
                    assert(next =~= seen.push(*arg_child));
                    if point.row < arg_child.end.row || (point.row == arg_child.end.row
                        && point.column <= arg_child.end.column) {
                        proof {
                            assert(list =~= list.take(k + 1) + list.skip(k + 1));
                            Seq::filter_distributes_over_add(
                                list.take(k + 1),
                                list.skip(k + 1),
                                is_argument(),
                            );
                            let upto = arguments_among(children, (i + 1) as nat);
                            assert(upto == before + list.filter(is_argument()));
                            lemma_arguments_grow(children, (i + 1) as nat, children.len());
                            assert(next.is_prefix_of(upto));
                            assert(upto.is_prefix_of(all));
                            assert forall|j: int| 0 <= j < seen.len() implies !reaches(
                                #[trigger] all[j],
                                point,
                            ) by {
                                assert(all[j] == next[j]);
                                assert(next[j] == seen[j]);
                            }
                            assert(all[seen.len() as int] == next[seen.len() as int]);
                            lemma_first_reached_at(all, point, seen.len() as int);
                        }
                        return arg_index;
                    }
                    if arg_index < u32::MAX {
                        arg_index += 1;
                    }
                    assert forall|j: int| 0 <= j < next.len() implies !reaches(
                        #[trigger] next[j],
                        point,
                    ) by {
                        if j < seen.len() {
                            assert(next[j] == seen[j]);
                        }
                    }
                }
                k += 1;
            }
            assert(list.take(k as int) =~= list);
        }
        i += 1;
    }
    proof {
        lemma_none_reached(all, point);
    }
    arg_index
}

/// The name of the command that `node` calls, in lowercase: the text of its
/// first child, read from the line on which that child starts. A node that
/// is no call, or whose first child does not lie within the source as
/// whole characters, has none.
pub open spec fn command_name(node: SyntaxNode, source: Seq<Seq<char>>) -> Option<Seq<char>> {
    if node.kind == NodeKind::NormalCommand && node.children@.len() > 0 {
        let id = node.children@[0];
        if id.start.row < source.len() {
            match text_between(
                source[id.start.row as int],
                id.start.column as int,
                id.end.column as int,
            ) {
                Some(text) => Some(lowercase_of(text)),
                None => None,
            }
        } else {
            None
        }
    } else {
        None
    }
}

/// The command at `point` among the children from `from` on, with the index
/// of the argument at `point`: the first child that spans the point and is a
/// call with a name or holds such a call.
pub open spec fn command_among(
    children: Seq<SyntaxNode>,
    from: nat,
    point: Point,
    source: Seq<Seq<char>>,
) -> Option<(Seq<char>, u32)>
    decreases children, children.len() - from,
{
    if from >= children.len() {
        None
    } else {
        let child = children[from as int];
        let here = if spans(child, point) {
            command_at(child, point, source)
        } else {
            None
        };
        match here {
            Some(found) => Some(found),
            None => command_among(children, from + 1, point, source),
        }
    }
}

/// The command at `point` in a node that spans it: the node itself, where
/// it is a call with a name, or else the first such call below it.
pub open spec fn command_at(node: SyntaxNode, point: Point, source: Seq<Seq<char>>) -> Option<
    (Seq<char>, u32),
>
    decreases node,
{
    match command_name(node, source) {
        Some(name) => Some((name, argument_index(node, point))),
        None => command_among(node.children@, 0, point, source),
    }
}

/// The command at `point` below `node`.
pub open spec fn command_in(node: SyntaxNode, point: Point, source: Seq<Seq<char>>) -> Option<
    (Seq<char>, u32),
> {
    command_among(node.children@, 0, point, source)
}

/// What a found command is, as mathematical values.
pub open spec fn found_view(found: Option<(String, u32)>) -> Option<(Seq<char>, u32)> {
    match found {
        Some(pair) => Some((pair.0@, pair.1)),
        None => None,
    }
}

/// The name of the command that `node` calls, in lowercase.
pub fn command_name_of(node: &SyntaxNode, source: &Vec<String>) -> (r: Option<String>)
    ensures
        r.deep_view() == command_name(*node, source.deep_view()),
{
    if node.kind != NodeKind::NormalCommand || node.children.len() == 0 {
        return None;
    }
    let id = &node.children[0];
    let row = id.start.row;
    if row >= source.len() {
        return None;
    }
    assert(source.deep_view()[row as int] == source[row as int]@);
    match slice_bytes(source[row].as_str(), id.start.column, id.end.column) {
        Some(text) => Some(lowercase(text.as_str())),
        None => None,
    }
}

/// The command at `point` below `node`, with the index of the argument at
/// `point`.
pub fn find_command_in_tree(node: &SyntaxNode, point: Point, source: &Vec<String>) -> (r: Option<
    (String, u32),
>)
    ensures
        found_view(r) == command_in(*node, point, source.deep_view()),
    decreases node,
{
    let ghost lines = source.deep_view();
    let ghost children = node.children@;
    let mut i: usize = 0;
    while i < node.children.len()
        invariant
            i <= node.children.len(),
            lines == source.deep_view(),
            children == node.children@,
            command_in(*node, point, lines) == command_among(children, i as nat, point, lines),
        decreases node.children.len() - i,
    {
        let child = &node.children[i];
        proof {
            assert(*child == children[i as int]);
            let here = if spans(*child, point) {
                command_at(*child, point, lines)
            } else {
                None
            };
            assert(command_among(children, i as nat, point, lines) == match here {
                Some(found) => Some(found),
                None => command_among(children, (i + 1) as nat, point, lines),
            });
            assert(command_at(*child, point, lines) == match command_name(*child, lines) {
                Some(name) => Some((name, argument_index(*child, point))),
                None => command_in(*child, point, lines),
            });
        }
        if node_spans(child, point) {
            match command_name_of(child, source) {
                Some(name) => {
                    let index = find_argument_index(child, point);
                    return Some((name, index));
                },
                None => {},
            }
            match find_command_in_tree(child, point, source) {
                Some(found) => {
                    return Some(found);
                },
                None => {},
            }
        }
        i += 1;
    }
    None
}

/// The place in the tree that a position in the text names.
pub open spec fn point_of(position: TextPosition) -> Point {
    Point { row: position.line as usize, column: position.character as usize }
}

/// The command at `position` in `source`, whose syntax tree is `root`.
pub fn find_command_at_position(root: &SyntaxNode, source: &str, position: TextPosition) -> (r:
    Option<(String, u32)>)
    ensures
        found_view(r) == command_in(*root, point_of(position), lines_of(source@)),
{
    let lines = split_lines(source);
    let point = Point { row: position.line as usize, column: position.character as usize };
    find_command_in_tree(root, point, &lines)
}

/// What is shown of one way to call a command.
#[derive(Debug)]
pub struct SignatureInformation {
    pub label: String,
    /// The description, as Markdown.
    pub documentation: String,
    /// The labels of the parameters, or nothing where there are none.
    pub parameters: Option<Vec<String>>,
    pub active_parameter: Option<u32>,
}

/// What a `SignatureInformation` holds, as mathematical values.
pub struct InformationView {
    pub label: Seq<char>,
    pub documentation: Seq<char>,
    pub parameters: Option<Seq<Seq<char>>>,
    pub active_parameter: Option<u32>,
}

impl View for SignatureInformation {
    type V = InformationView;

    open spec fn view(&self) -> InformationView {
        InformationView {
            label: self.label@,
            documentation: self.documentation@,
            parameters: self.parameters.deep_view(),
            active_parameter: self.active_parameter,
        }
    }
}

impl DeepView for SignatureInformation {
    type V = InformationView;

    open spec fn deep_view(&self) -> InformationView {
        self@
    }
}

/// The help for the call under the cursor.
#[derive(Debug)]
pub struct SignatureHelp {
    pub signatures: Vec<SignatureInformation>,
    pub active_signature: Option<u32>,
    pub active_parameter: Option<u32>,
}

/// What a `SignatureHelp` holds, as mathematical values.
pub struct HelpView {
    pub signatures: Seq<InformationView>,
    pub active_signature: Option<u32>,
    pub active_parameter: Option<u32>,
}

impl View for SignatureHelp {
    type V = HelpView;

    open spec fn view(&self) -> HelpView {
        HelpView {
            signatures: self.signatures.deep_view(),
            active_signature: self.active_signature,
            active_parameter: self.active_parameter,
        }
    }
}

impl DeepView for SignatureHelp {
    type V = HelpView;

    open spec fn deep_view(&self) -> HelpView {
        self@
    }
}

/// What is shown of a signature: its label, its description, and its
/// parameters where it has any.
pub open spec fn information_of(signature: SignatureView) -> InformationView {
    InformationView {
        label: signature.label,
        documentation: signature.documentation,
        parameters: if signature.parameters.len() == 0 {
            None
        } else {
            Some(signature.parameters)
        },
        active_parameter: None,
    }
}

/// `information_of` as a function.
pub open spec fn as_information() -> spec_fn(SignatureView) -> InformationView {
    |signature: SignatureView| information_of(signature)
}

/// The help for a found command: its signatures, the first of them active,
/// with the argument under the cursor. A command that is unknown or has no
/// signature gets none.
pub open spec fn help_for(
    found: Option<(Seq<char>, u32)>,
    table: Map<Seq<char>, Seq<SignatureView>>,
) -> Option<HelpView> {
    match found {
        Some((name, active)) => if table.contains_key(name) && table[name].len() > 0 {
            Some(
                HelpView {
                    signatures: table[name].map_values(as_information()),
                    active_signature: Some(0u32),
                    active_parameter: Some(active),
                },
            )
        } else {
            None
        },
        None => None,
    }
}

/// What is shown of `signature`.
pub fn signature_information(signature: &CMakeSignature) -> (r: SignatureInformation)
    ensures
        r@ == information_of(signature@),
{
    let parameters = if signature.parameters.len() == 0 {
        assert(signature.parameters.deep_view().len() == 0);
        None
    } else {
        assert(signature.parameters.deep_view().len() > 0);
        Some(clone_texts(&signature.parameters))
    };
    SignatureInformation {
        label: signature.label.clone(),
        documentation: signature.documentation.clone(),
        parameters,
        active_parameter: None,
    }
}

/// The help for the call at `position` in `source`, whose syntax tree is
/// `root`, from the signatures in `signatures`.
pub fn get_signature_help(
    root: &SyntaxNode,
    source: &str,
    position: TextPosition,
    signatures: &TextMap<Vec<CMakeSignature>>,
) -> (r: Option<SignatureHelp>)
    ensures
        r.deep_view() == help_for(
            command_in(*root, point_of(position), lines_of(source@)),
            signatures@,
        ),
{
    let (name, active) = match find_command_at_position(root, source, position) {
        Some(found) => found,
        None => {
            return None;
        },
    };
    let known = match signatures.get(name.as_str()) {
        Some(list) => list,
        None => {
            return None;
        },
    };
    if known.len() == 0 {
        assert(known.deep_view().len() == 0);
        return None;
    }
    let mut shown: Vec<SignatureInformation> = Vec::new();
    let mut i: usize = 0;
    while i < known.len()
        invariant
            i <= known.len(),
            shown.len() == i,
            forall|j: int| 0 <= j < i ==> shown[j]@ == information_of(known[j]@),
        decreases known.len() - i,
    {
        shown.push(signature_information(&known[i]));
        i += 1;
    }
    assert(shown.deep_view() =~= known.deep_view().map_values(as_information()));
    Some(SignatureHelp { signatures: shown, active_signature: Some(0), active_parameter: Some(active) })
}

} // verus!
