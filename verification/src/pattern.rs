//! Regular expressions on texts, by the `regex` crate.

use vstd::prelude::*;
use regex::Regex;

verus! {

/// The matches that `Regex::find_iter` yields for `text`, in order, under
/// the expression that `Regex::new` compiles from `pattern`; nothing where
/// the pattern does not compile.
pub uninterp spec fn regex_matches(pattern: Seq<char>, text: Seq<char>) -> Option<Seq<Seq<char>>>;

/// The parts that `Regex::split` yields for `text`, in order, under the
/// expression that `Regex::new` compiles from `pattern`; nothing where the
/// pattern does not compile.
pub uninterp spec fn regex_pieces(pattern: Seq<char>, text: Seq<char>) -> Option<Seq<Seq<char>>>;

/// For each match that `Regex::captures_iter` yields for `text`, in order,
/// what its first group captured, if it took part in the match; nothing
/// where the pattern does not compile.
pub uninterp spec fn regex_first_groups(pattern: Seq<char>, text: Seq<char>) -> Option<
    Seq<Option<Seq<char>>>,
>;

/// What `regex::escape` makes of a text.
pub uninterp spec fn regex_escaped(text: Seq<char>) -> Seq<char>;

/// `Regex::new`, then `Regex::find_iter`: the text of each successive match
/// of the pattern in `text`, none overlapping another.
#[verifier::external_body]
pub(crate) fn find_all(pattern: &str, text: &str) -> (r: Option<Vec<String>>)
    ensures
        r.deep_view() == regex_matches(pattern@, text@),
{
    Regex::new(pattern).ok().map(|re| re.find_iter(text).map(|m| m.as_str().to_owned()).collect())
}

/// `Regex::new`, then `Regex::split`: the parts of `text` that no match of
/// the pattern covers, in order.
#[verifier::external_body]
pub(crate) fn split_all(pattern: &str, text: &str) -> (r: Option<Vec<String>>)
    ensures
        r.deep_view() == regex_pieces(pattern@, text@),
{
    Regex::new(pattern).ok().map(|re| re.split(text).map(|part| part.to_owned()).collect())
}

/// `Regex::new`, then `Regex::captures_iter` with `Captures::get` for the
/// first group: what that group captured in each successive match.
#[verifier::external_body]
pub(crate) fn first_groups(pattern: &str, text: &str) -> (r: Option<Vec<Option<String>>>)
    ensures
        r.deep_view() == regex_first_groups(pattern@, text@),
{
    Regex::new(pattern).ok().map(
        |re|
            re.captures_iter(text).map(|found| found.get(1).map(|m| m.as_str().to_owned())).collect(),
    )
}

/// `regex::escape`: the text with every character that has a meaning in a
/// pattern escaped, so that it matches itself.
#[verifier::external_body]
pub(crate) fn escape(text: &str) -> (r: String)
    ensures
        r@ == regex_escaped(text@),
{
    regex::escape(text)
}

} // verus!
