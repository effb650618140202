//! Texts as sequences of characters: trimming, lines, searching, and the
//! parts of a text between byte offsets.

use vstd::prelude::*;
use vstd::string::StringSliceAdditionalSpecFns;
use vstd::utf8::{decode_utf8, encode_utf8, is_char_boundary};

verus! {

/// The characters of a string, in order.
pub fn chars_of(s: &str) -> (v: Vec<char>)
    ensures
        v@ == s@,
{
    let mut v: Vec<char> = Vec::new();
    for c in it: s.chars()
        invariant
            it.seq() == s@,
            v@ == it.seq().take(it.index() as int),
    {
        v.push(c);
    }
    v
}

/// `String::from_iter` over the characters of `v`: the string that holds
/// exactly these characters, in this order.
#[verifier::external_body]
pub(crate) fn string_from_chars(v: &Vec<char>) -> (s: String)
    ensures
        s@ == v@,
{
    v.iter().collect()
}

/// The characters of `v` from `from` up to, not including, `to`, as a string.
pub fn string_of_range(v: &Vec<char>, from: usize, to: usize) -> (s: String)
    requires
        from <= to <= v.len(),
    ensures
        s@ == v@.subrange(from as int, to as int),
{
    let mut part: Vec<char> = Vec::new();
    let mut i: usize = from;
    while i < to
        invariant
            from <= i <= to <= v.len(),
            part@ == v@.subrange(from as int, i as int),
        decreases to - i,
    {
        part.push(v[i]);
        i += 1;
    }
    string_from_chars(&part)
}

/// What `str::to_lowercase` makes of a text.
pub uninterp spec fn lowercase_of(s: Seq<char>) -> Seq<char>;

/// `str::to_lowercase`: the lowercase equivalent of the text, as Unicode
/// defines it.
#[verifier::external_body]
pub(crate) fn lowercase(s: &str) -> (r: String)
    ensures
        r@ == lowercase_of(s@),
{
    s.to_lowercase()
}

/// A class of characters that the library looks for in a text.
#[derive(Debug, Clone, Copy, PartialEq, Eq, Structural)]
pub enum CharClass {
    /// White space, as Unicode defines it.
    Whitespace,
    /// A single or a double quotation mark.
    Quote,
    /// What can stand before an argument: an opening parenthesis, a
    /// quotation mark, a space or a tab.
    Delimiter,
    /// A newline.
    Newline,
    /// A slash.
    Slash,
    /// A full stop.
    Dot,
}

/// Whether `c` is white space: a character with the Unicode property
/// `White_Space`.
pub open spec fn is_whitespace(c: char) -> bool {
    let n = c as u32;
    ||| 0x09 <= n <= 0x0D
    ||| n == 0x20
    ||| n == 0x85
    ||| n == 0xA0
    ||| n == 0x1680
    ||| 0x2000 <= n <= 0x200A
    ||| n == 0x2028
    ||| n == 0x2029
    ||| n == 0x202F
    ||| n == 0x205F
    ||| n == 0x3000
}

/// Whether `c` is an ASCII letter or digit.
pub open spec fn is_ascii_alphanumeric(c: char) -> bool {
    ||| '0' <= c <= '9'
    ||| 'a' <= c <= 'z'
    ||| 'A' <= c <= 'Z'
}

/// Whether `c` is an ASCII letter or digit.
pub fn ascii_alphanumeric(c: char) -> (r: bool)
    ensures
        r == is_ascii_alphanumeric(c),
{
    ('0' <= c && c <= '9') || ('a' <= c && c <= 'z') || ('A' <= c && c <= 'Z')
}

impl CharClass {
    /// Whether `c` belongs to the class.
    pub open spec fn holds(self, c: char) -> bool {
        match self {
            CharClass::Whitespace => is_whitespace(c),
            CharClass::Quote => c == '"' || c == '\'',
            CharClass::Delimiter => c == '(' || c == '"' || c == '\'' || c == ' ' || c == '\t',
            CharClass::Newline => c == '\n',
            CharClass::Slash => c == '/',
            CharClass::Dot => c == '.',
        }
    }

    /// Membership in the class, as a predicate.
    pub open spec fn pred(self) -> spec_fn(char) -> bool {
        |c: char| self.holds(c)
    }

    /// Whether `c` belongs to the class.
    pub fn test(self, c: char) -> (r: bool)
        ensures
            r == self.holds(c),
    {
        match self {
            CharClass::Whitespace => {
                let n = c as u32;
                (0x09 <= n && n <= 0x0D) || n == 0x20 || n == 0x85 || n == 0xA0 || n == 0x1680 || (
                0x2000 <= n && n <= 0x200A) || n == 0x2028 || n == 0x2029 || n == 0x202F || n
                    == 0x205F || n == 0x3000
            },
            CharClass::Quote => c == '"' || c == '\'',
            CharClass::Delimiter => c == '(' || c == '"' || c == '\'' || c == ' ' || c == '\t',
            CharClass::Newline => c == '\n',
            CharClass::Slash => c == '/',
            CharClass::Dot => c == '.',
        }
    }
}

/// The index of the last character of `text` that satisfies `pred`.
pub open spec fn last_index_where(text: Seq<char>, pred: spec_fn(char) -> bool) -> Option<int>
    decreases text.len(),
{
    if text.len() == 0 {
        None
    } else if pred(text.last()) {
        Some(text.len() - 1)
    } else {
        last_index_where(text.drop_last(), pred)
    }
}

/// `last_index_where` names the last match: nothing after it matches, and it
/// is absent exactly when nothing matches at all.
pub proof fn lemma_last_index_where(text: Seq<char>, pred: spec_fn(char) -> bool)
    ensures
        match last_index_where(text, pred) {
            Some(i) => 0 <= i < text.len() && pred(text[i]) && forall|j: int|
                i < j < text.len() ==> !pred(#[trigger] text[j]),
            None => forall|j: int| 0 <= j < text.len() ==> !pred(#[trigger] text[j]),
        },
    decreases text.len(),
{
    if text.len() > 0 && !pred(text.last()) {
        lemma_last_index_where(text.drop_last(), pred);
        assert forall|j: int| 0 <= j < text.len() - 1 implies text.drop_last()[j] == text[j] by {}
        match last_index_where(text.drop_last(), pred) {
            Some(i) => {
                assert forall|j: int| i < j < text.len() implies !pred(#[trigger] text[j]) by {
                    if j < text.len() - 1 {
                        assert(text.drop_last()[j] == text[j]);
                    }
                }
            },
            None => {
                assert forall|j: int| 0 <= j < text.len() implies !pred(#[trigger] text[j]) by {
                    if j < text.len() - 1 {
                        assert(text.drop_last()[j] == text[j]);
                    }
                }
            },
        }
    }
}

/// The index of the last full stop in `text`.
pub open spec fn last_dot(text: Seq<char>) -> Option<int> {
    last_index_where(text, CharClass::Dot.pred())
}

/// Where `last_dot` finds a full stop, none follows it.
pub proof fn lemma_last_dot(text: Seq<char>)
    ensures
        match last_dot(text) {
            Some(i) => 0 <= i < text.len() && text[i] == '.' && forall|j: int|
                i < j < text.len() ==> #[trigger] text[j] != '.',
            None => forall|j: int| 0 <= j < text.len() ==> #[trigger] text[j] != '.',
        },
{
    lemma_last_index_where(text, CharClass::Dot.pred());
}

/// The index of the last character among the first `end` of `v` that
/// belongs to `class`.
pub fn find_last(v: &Vec<char>, end: usize, class: CharClass) -> (r: Option<usize>)
    requires
        end <= v.len(),
    ensures
        match r {
            Some(i) => last_index_where(v@.take(end as int), class.pred()) == Some(i as int) && i
                < end,
            None => last_index_where(v@.take(end as int), class.pred()) is None,
        },
{
    let ghost pred = class.pred();
    let mut i: usize = end;
    while i > 0
        invariant
            i <= end <= v.len(),
            pred == class.pred(),
            last_index_where(v@.take(end as int), pred) == last_index_where(
                v@.take(i as int),
                pred,
            ),
        decreases i,
    {
        if class.test(v[i - 1]) {
            assert(v@.take(i as int).last() == v@[i - 1]);
            return Some(i - 1);
        }
        assert(v@.take(i as int).drop_last() =~= v@.take(i - 1));
        assert(v@.take(i as int).last() == v@[i - 1]);
        i -= 1;
    }
    assert(v@.take(0).len() == 0);
    None
}

/// The index of the last full stop in `v`.
pub fn find_last_dot(v: &Vec<char>) -> (r: Option<usize>)
    ensures
        match r {
            Some(i) => last_dot(v@) == Some(i as int) && i < v.len(),
            None => last_dot(v@) is None,
        },
{
    assert(v@.take(v.len() as int) =~= v@);
    find_last(v, v.len(), CharClass::Dot)
}

/// `text` without the characters at its start that satisfy `pred`.
pub open spec fn skip_leading(text: Seq<char>, pred: spec_fn(char) -> bool) -> Seq<char>
    decreases text.len(),
{
    if text.len() > 0 && pred(text[0]) {
        skip_leading(text.drop_first(), pred)
    } else {
        text
    }
}

/// `text` without the characters at its end that satisfy `pred`.
pub open spec fn drop_trailing(text: Seq<char>, pred: spec_fn(char) -> bool) -> Seq<char>
    decreases text.len(),
{
    if text.len() > 0 && pred(text.last()) {
        drop_trailing(text.drop_last(), pred)
    } else {
        text
    }
}

/// `text` without the characters at its start and at its end that belong to
/// `class`.
pub open spec fn trimmed_of(text: Seq<char>, class: CharClass) -> Seq<char> {
    drop_trailing(skip_leading(text, class.pred()), class.pred())
}

/// `text` without the white space at its start and at its end.
pub open spec fn trimmed(text: Seq<char>) -> Seq<char> {
    trimmed_of(text, CharClass::Whitespace)
}

/// Where the first `n` characters satisfy `pred` and the next one, if there
/// is one, does not, `skip_leading` drops exactly these `n`.
pub proof fn lemma_skip_leading(text: Seq<char>, pred: spec_fn(char) -> bool, n: int)
    requires
        0 <= n <= text.len(),
        forall|j: int| 0 <= j < n ==> pred(#[trigger] text[j]),
        n < text.len() ==> !pred(text[n]),
    ensures
        skip_leading(text, pred) == text.skip(n),
    decreases n,
{
    if n == 0 {
        assert(text.skip(0) =~= text);
    } else {
        assert(pred(text[0]));
        let rest = text.drop_first();
        assert forall|j: int| 0 <= j < n - 1 implies pred(#[trigger] rest[j]) by {
            assert(rest[j] == text[j + 1]);
        }
        lemma_skip_leading(rest, pred, n - 1);
        assert(rest.skip(n - 1) =~= text.skip(n));
    }
}

/// Where the characters from `n` on satisfy `pred` and the one before, if
/// there is one, does not, `drop_trailing` keeps exactly the first `n`.
pub proof fn lemma_drop_trailing(text: Seq<char>, pred: spec_fn(char) -> bool, n: int)
    requires
        0 <= n <= text.len(),
        forall|j: int| n <= j < text.len() ==> pred(#[trigger] text[j]),
        n > 0 ==> !pred(text[n - 1]),
    ensures
        drop_trailing(text, pred) == text.take(n),
    decreases text.len() - n,
{
    if n == text.len() {
        assert(text.take(n) =~= text);
    } else {
        assert(pred(text[text.len() - 1]));
        let rest = text.drop_last();
        lemma_drop_trailing(rest, pred, n);
        assert(rest.take(n) =~= text.take(n));
    }
}

/// The bounds of `v` without the characters at its start and at its end
/// that belong to `class`.
pub fn trim_bounds(v: &Vec<char>, class: CharClass) -> (r: (usize, usize))
    ensures
        r.0 <= r.1 <= v.len(),
        v@.subrange(r.0 as int, r.1 as int) == trimmed_of(v@, class),
{
    let mut from: usize = 0;
    while from < v.len() && class.test(v[from])
        invariant
            from <= v.len(),
            forall|j: int| 0 <= j < from ==> class.holds(#[trigger] v@[j]),
        decreases v.len() - from,
    {
        from += 1;
    }
    let mut to: usize = v.len();
    while to > from && class.test(v[to - 1])
        invariant
            from <= to <= v.len(),
            forall|j: int| to <= j < v.len() ==> class.holds(#[trigger] v@[j]),
        decreases to,
    {
        to -= 1;
    }
    proof {
        let pred = class.pred();
        lemma_skip_leading(v@, pred, from as int);
        let rest = v@.skip(from as int);
        assert forall|j: int| to - from <= j < rest.len() implies pred(#[trigger] rest[j]) by {
            assert(rest[j] == v@[j + from]);
        }
        if to > from {
            assert(rest[to - from - 1] == v@[to - 1]);
        }
        lemma_drop_trailing(rest, pred, to - from);
        assert(rest.take(to - from) =~= v@.subrange(from as int, to as int));
    }
    (from, to)
}

/// `text` without the characters at its start and at its end that belong to
/// `class`.
pub fn trim_class(text: &str, class: CharClass) -> (r: String)
    ensures
        r@ == trimmed_of(text@, class),
{
    let chars = chars_of(text);
    let bounds = trim_bounds(&chars, class);
    string_of_range(&chars, bounds.0, bounds.1)
}

/// `text` without the white space at its start and at its end.
pub fn trim(text: &str) -> (r: String)
    ensures
        r@ == trimmed(text@),
{
    trim_class(text, CharClass::Whitespace)
}

/// A line without the carriage return that ends it, if one does.
pub open spec fn without_carriage_return(line: Seq<char>) -> Seq<char> {
    if line.len() > 0 && line.last() == '\r' {
        line.drop_last()
    } else {
        line
    }
}

/// How far a text has been cut into lines: the lines that a newline has
/// closed, and the characters since the last newline.
pub struct LineScan {
    pub closed: Seq<Seq<char>>,
    pub open: Seq<char>,
}

/// A text cut into lines, read from its start to its end. A newline closes
/// a line, and a carriage return directly before it goes with it.
pub open spec fn scan_lines(text: Seq<char>) -> LineScan
    decreases text.len(),
{
    if text.len() == 0 {
        LineScan { closed: Seq::empty(), open: Seq::empty() }
    } else {
        let before = scan_lines(text.drop_last());
        if text.last() == '\n' {
            LineScan {
                closed: before.closed.push(without_carriage_return(before.open)),
                open: Seq::empty(),
            }
        } else {
            LineScan { closed: before.closed, open: before.open.push(text.last()) }
        }
    }
}

/// The lines of a text. A line ends with a newline, or with a carriage
/// return and a newline, neither of which belongs to it; the last line need
/// not end so, and there is no empty line after the last newline.
pub open spec fn lines_of(text: Seq<char>) -> Seq<Seq<char>> {
    let scan = scan_lines(text);
    if scan.open.len() > 0 {
        scan.closed.push(scan.open)
    } else {
        scan.closed
    }
}

/// The lines of a text.
pub fn split_lines(text: &str) -> (r: Vec<String>)
    ensures
        r.deep_view() == lines_of(text@),
{
    let chars = chars_of(text);
    let mut lines: Vec<String> = Vec::new();
    let mut start: usize = 0;
    let mut i: usize = 0;
    assert(lines.deep_view() =~= scan_lines(chars@.take(0)).closed);
    while i < chars.len()
        invariant
            start <= i <= chars.len(),
            lines.deep_view() == scan_lines(chars@.take(i as int)).closed,
            chars@.subrange(start as int, i as int) == scan_lines(chars@.take(i as int)).open,
        decreases chars.len() - i,
    {
        let ghost before = lines.deep_view();
        proof {
            assert(chars@.take(i + 1).drop_last() =~= chars@.take(i as int));
            assert(chars@.take(i + 1).last() == chars@[i as int]);
        }
        if chars[i] == '\n' {
            let end = if i > start && chars[i - 1] == '\r' {
                i - 1
            } else {
                i
            };
            proof {
                let open = chars@.subrange(start as int, i as int);
                if i > start {
                    assert(open.last() == chars@[i - 1]);
                }
                assert(chars@.subrange(start as int, end as int) =~= without_carriage_return(open));
            }
            lines.push(string_of_range(&chars, start, end));
            assert(lines.deep_view() =~= before.push(
                without_carriage_return(chars@.subrange(start as int, i as int)),
            ));
            start = i + 1;
            assert(chars@.subrange(start as int, i + 1) =~= Seq::<char>::empty());
        } else {
            assert(chars@.subrange(start as int, i + 1) =~= chars@.subrange(
                start as int,
                i as int,
            ).push(chars@[i as int]));
        }
        i += 1;
    }
    assert(chars@.take(i as int) =~= chars@);
    if start < chars.len() {
        let ghost before = lines.deep_view();
        lines.push(string_of_range(&chars, start, chars.len()));
        assert(lines.deep_view() =~= before.push(chars@.subrange(start as int, i as int)));
    }
    lines
}

/// The texts of `parts`, one after another, with `separator` between each
/// two.
pub open spec fn joined(parts: Seq<Seq<char>>, separator: Seq<char>) -> Seq<char>
    decreases parts.len(),
{
    if parts.len() == 0 {
        Seq::empty()
    } else if parts.len() == 1 {
        parts[0]
    } else {
        joined(parts.drop_last(), separator) + separator + parts.last()
    }
}

/// The text that the bytes from `from` up to `to` of the UTF-8 form of
/// `line` spell, where both offsets lie between two characters and in this
/// order.
pub open spec fn text_between(line: Seq<char>, from: int, to: int) -> Option<Seq<char>> {
    let bytes = encode_utf8(line);
    if 0 <= from <= to <= bytes.len() && is_char_boundary(bytes, from) && is_char_boundary(
        bytes,
        to,
    ) {
        Some(decode_utf8(bytes.subrange(from, to)))
    } else {
        None
    }
}

/// The text that the first `to` bytes of the UTF-8 form of `line` spell.
pub open spec fn text_before(line: Seq<char>, to: int) -> Option<Seq<char>> {
    text_between(line, 0, to)
}

/// The number of bytes in the UTF-8 form of a text.
pub open spec fn byte_len(text: Seq<char>) -> nat {
    encode_utf8(text).len()
}

/// The UTF-8 form of two texts in a row is the two forms in a row.
pub proof fn lemma_encode_concat(a: Seq<char>, b: Seq<char>)
    ensures
        encode_utf8(a + b) == encode_utf8(a) + encode_utf8(b),
    decreases a.len(),
{
    if a.len() == 0 {
        assert(a + b =~= b);
        assert(encode_utf8(a) + encode_utf8(b) =~= encode_utf8(b));
    } else {
        lemma_encode_concat(a.drop_first(), b);
        assert((a + b).drop_first() =~= a.drop_first() + b);
        assert((a + b)[0] == a[0]);
        assert(encode_utf8(a + b) =~= encode_utf8(a) + encode_utf8(b));
    }
}

/// The part of `line` between two byte offsets, or nothing where an offset
/// lies outside the line or inside a character, or the two are out of order.
pub fn slice_bytes(line: &str, from: usize, to: usize) -> (r: Option<String>)
    ensures
        r.deep_view() == text_between(line@, from as int, to as int),
{
    broadcast use vstd::utf8::group_utf8_lib;

    if from > to || to > line.as_bytes().len() {
        return None;
    }
    if !line.is_char_boundary(from) || !line.is_char_boundary(to) {
        return None;
    }
    let ghost bytes = line.spec_bytes();
    let (head, _) = line.split_at(to);
    proof {
        assert(head.spec_bytes() =~= bytes.subrange(0, to as int));
        vstd::utf8::valid_utf8_split(bytes, to as int);
        if from < to {
            vstd::utf8::is_char_boundary_iff_is_leading_byte(bytes, from as int);
            vstd::utf8::is_char_boundary_iff_is_leading_byte(head.spec_bytes(), from as int);
        } else {
            vstd::utf8::is_char_boundary_start_end_of_seq(head.spec_bytes());
        }
    }
    let (_, piece) = head.split_at(from);
    proof {
        assert(piece.spec_bytes() =~= bytes.subrange(from as int, to as int));
        vstd::utf8::encode_utf8_decode_utf8(piece@);
    }
    Some(piece.to_owned())
}

/// The number of characters at the start of `text` that do not satisfy
/// `pred`.
pub open spec fn span_before(text: Seq<char>, pred: spec_fn(char) -> bool) -> nat
    decreases text.len(),
{
    if text.len() == 0 || pred(text[0]) {
        0
    } else {
        1 + span_before(text.drop_first(), pred)
    }
}

/// Where the first `n` characters do not satisfy `pred` and the next one, if
/// there is one, does, `span_before` is `n`.
pub proof fn lemma_span_before(text: Seq<char>, pred: spec_fn(char) -> bool, n: int)
    requires
        0 <= n <= text.len(),
        forall|j: int| 0 <= j < n ==> !pred(#[trigger] text[j]),
        n < text.len() ==> pred(text[n]),
    ensures
        span_before(text, pred) == n,
    decreases n,
{
    if n > 0 {
        let rest = text.drop_first();
        assert(!pred(text[0]));
        assert forall|j: int| 0 <= j < n - 1 implies !pred(#[trigger] rest[j]) by {
            assert(rest[j] == text[j + 1]);
        }
        if n < text.len() {
            assert(rest[n - 1] == text[n]);
        }
        lemma_span_before(rest, pred, n - 1);
    }
}

/// The first line of a text: what stands before its first newline.
pub open spec fn first_line(text: Seq<char>) -> Seq<char> {
    text.take(span_before(text, CharClass::Newline.pred()) as int)
}

/// The first line of a text.
pub fn first_line_of(text: &str) -> (r: String)
    ensures
        r@ == first_line(text@),
{
    let chars = chars_of(text);
    let mut n: usize = 0;
    while n < chars.len() && chars[n] != '\n'
        invariant
            n <= chars.len(),
            forall|j: int| 0 <= j < n ==> !CharClass::Newline.holds(#[trigger] chars@[j]),
        decreases chars.len() - n,
    {
        n += 1;
    }
    proof {
        lemma_span_before(chars@, CharClass::Newline.pred(), n as int);
    }
    string_of_range(&chars, 0, n)
}

/// What `str::to_uppercase` makes of a text.
pub uninterp spec fn uppercase_of(s: Seq<char>) -> Seq<char>;

/// `str::to_uppercase`: the uppercase equivalent of the text, as Unicode
/// defines it.
#[verifier::external_body]
pub(crate) fn uppercase(s: &str) -> (r: String)
    ensures
        r@ == uppercase_of(s@),
{
    s.to_uppercase()
}

} // verus!
