use cmake_lsp_core::text::{
    chars_of, first_line_of, slice_bytes, split_lines, string_of_range, trim, trim_class,
    CharClass,
};
use cmake_lsp_core::text_map::{chars_equal, TextMap};

#[test]
fn lines_agree_with_the_standard_library() {
    let samples = [
        "", "\n", "a", "a\n", "a\nb", "a\r\nb", "a\r", "a\r\r\n", "\r\n", "\n\n", "a\n\nb\n",
        "\r", "a\rb\n", "x\n\r\ny", "tail\n\r", "\u{e9}\n\u{4e2d}\r\n",
    ];
    for text in samples {
        let expected: Vec<String> = text.lines().map(|l| l.to_string()).collect();
        assert_eq!(split_lines(text), expected, "for {:?}", text);
    }
}

#[test]
fn trim_agrees_with_the_standard_library() {
    let samples = [
        "", " ", "a", " a ", "\t\na b\r\n ", "\u{a0}x\u{3000}", "\u{200b}x", "  \u{2028}  ",
        "x  y", "\u{85}\u{1680}z\u{205f}",
    ];
    for text in samples {
        assert_eq!(trim(text), text.trim(), "for {:?}", text);
    }
}

#[test]
fn trim_class_strips_both_ends_only() {
    assert_eq!(trim_class("\"'a'b\"'", CharClass::Quote), "a'b");
    assert_eq!(trim_class("'''", CharClass::Quote), "");
    assert_eq!(trim_class("a", CharClass::Quote), "a");
    assert_eq!(trim_class("//a/b//", CharClass::Slash), "a/b");
    assert_eq!(trim_class("..a..", CharClass::Dot), "a");
}

#[test]
fn character_classes_hold_their_members() {
    assert!(CharClass::Delimiter.test('('));
    assert!(CharClass::Delimiter.test('"'));
    assert!(CharClass::Delimiter.test('\''));
    assert!(CharClass::Delimiter.test(' '));
    assert!(CharClass::Delimiter.test('\t'));
    assert!(!CharClass::Delimiter.test(')'));
    assert!(!CharClass::Delimiter.test('\n'));
    assert!(CharClass::Newline.test('\n'));
    assert!(!CharClass::Newline.test('\r'));
    assert!(CharClass::Whitespace.test('\u{b}'));
    assert!(!CharClass::Whitespace.test('\u{180e}'));
}

#[test]
fn chars_and_ranges_round_trip() {
    let chars = chars_of("h\u{e9}llo");
    assert_eq!(chars, vec!['h', '\u{e9}', 'l', 'l', 'o']);
    assert_eq!(string_of_range(&chars, 1, 4), "\u{e9}ll");
    assert_eq!(string_of_range(&chars, 2, 2), "");
    assert_eq!(string_of_range(&chars, 0, 5), "h\u{e9}llo");
}

#[test]
fn byte_slices_respect_character_boundaries() {
    let line = "a\u{e9}b";
    assert_eq!(slice_bytes(line, 0, 4).as_deref(), Some("a\u{e9}b"));
    assert_eq!(slice_bytes(line, 1, 3).as_deref(), Some("\u{e9}"));
    assert_eq!(slice_bytes(line, 3, 3).as_deref(), Some(""));
    assert_eq!(slice_bytes(line, 2, 3), None);
    assert_eq!(slice_bytes(line, 1, 2), None);
    assert_eq!(slice_bytes(line, 3, 1), None);
    assert_eq!(slice_bytes(line, 0, 5), None);
    assert_eq!(slice_bytes("", 0, 0).as_deref(), Some(""));
}

#[test]
fn first_line_ends_before_the_first_newline() {
    assert_eq!(first_line_of("name\n----\nrest"), "name");
    assert_eq!(first_line_of("single"), "single");
    assert_eq!(first_line_of("\nsecond"), "");
    assert_eq!(first_line_of(""), "");
    assert_eq!(first_line_of("a\r\nb"), "a\r");
}

#[test]
fn text_map_keeps_last_value_and_first_place() {
    let map: TextMap<String> = TextMap::new();
    assert_eq!(map.len(), 0);
    assert!(!map.contains_key("a"));
    assert!(map.get("a").is_none());

    let map = map
        .insert("a".to_string(), "1".to_string())
        .insert("b".to_string(), "2".to_string())
        .insert("a".to_string(), "3".to_string());
    assert_eq!(map.len(), 2);
    assert_eq!(map.get("a").map(|s| s.as_str()), Some("3"));
    assert_eq!(map.get("b").map(|s| s.as_str()), Some("2"));
    assert!(map.contains_key("b"));
    assert!(!map.contains_key("c"));
    assert_eq!(map.key_at(0), "a");
    assert_eq!(map.value_at(0), "3");
    assert_eq!(map.key_at(1), "b");
    assert_eq!(map.value_at(1), "2");
}

#[test]
fn texts_compare_by_their_characters() {
    assert!(chars_equal("abc", "abc"));
    assert!(chars_equal("", ""));
    assert!(!chars_equal("abc", "abd"));
    assert!(!chars_equal("abc", "ab"));
}

#[test]
fn quote_trimming_agrees_with_the_standard_library() {
    let samples = ["", "\"", "'a'", "\"a\"b\"", "a'b", "'\"x\"'", "\"\"\"", " 'a' ", "a"];
    for text in samples {
        let expected = text.trim_matches(|c| c == '"' || c == '\'');
        assert_eq!(trim_class(text, CharClass::Quote), expected, "for {:?}", text);
    }
}
