//! Regular expressions, as the `regex` crate matches them.
//!
//! What a search finds is left to that crate and only given a name here. The
//! code that works with what was found takes it as an argument.
use crate::text::chars_of;
use vstd::prelude::*;

verus! {

/// The texts of the groups of the first match of a pattern in a text, group 0
/// the whole match; nothing where there is no match or the pattern is not a
/// regular expression.
pub uninterp spec fn first_match(pattern: Seq<char>, text: Seq<char>) -> Option<
    Seq<Option<Seq<char>>>,
>;

/// The texts of the groups of all matches that do not overlap, from left to
/// right; none where the pattern is not a regular expression.
pub uninterp spec fn all_matches(pattern: Seq<char>, text: Seq<char>) -> Seq<
    Seq<Option<Seq<char>>>,
>;

/// The parts of a text before, between and behind the matches that do not
/// overlap; none where the pattern is not a regular expression.
pub uninterp spec fn unmatched_parts(pattern: Seq<char>, text: Seq<char>) -> Seq<Seq<char>>;

/// The text with each match replaced by the template, in which `${name}` stands
/// for a group; the text itself where the pattern is not a regular expression.
pub uninterp spec fn replaced_matches(
    pattern: Seq<char>,
    text: Seq<char>,
    template: Seq<char>,
) -> Seq<char>;

/// The groups of the first match, by `regex::Regex::captures`. The contract
/// gives its result a name that depends on the pattern and the text alone, and
/// says that a match has a group 0 which took part in it.
#[verifier::external_body]
pub(crate) fn captures(pattern: &str, text: &str) -> (found: Option<Vec<Option<String>>>)
    ensures
        match found {
            Some(groups) => first_match(pattern@, text@) == Some(groups.deep_view())
                && groups@.len() >= 1 && groups@[0] is Some,
            None => first_match(pattern@, text@) is None,
        },
{
    let re = match regex::Regex::new(pattern) {
        Ok(re) => re,
        Err(_) => return None,
    };
    re.captures(text).map(|c| c.iter().map(|g| g.map(|m| m.as_str().to_string())).collect())
}

/// The groups of all matches, by `regex::Regex::captures_iter`. The contract
/// gives its result a name that depends on the pattern and the text alone.
#[verifier::external_body]
pub(crate) fn captures_all(pattern: &str, text: &str) -> (found: Vec<Vec<Option<String>>>)
    ensures
        found.deep_view() == all_matches(pattern@, text@),
{
    let re = match regex::Regex::new(pattern) {
        Ok(re) => re,
        Err(_) => return Vec::new(),
    };
    re.captures_iter(text)
        .map(|c| c.iter().map(|g| g.map(|m| m.as_str().to_string())).collect())
        .collect()
}

/// The parts between the matches, by `regex::Regex::split`. The contract gives
/// its result a name that depends on the pattern and the text alone.
#[verifier::external_body]
pub(crate) fn split(pattern: &str, text: &str) -> (parts: Vec<String>)
    ensures
        parts.deep_view() == unmatched_parts(pattern@, text@),
{
    let re = match regex::Regex::new(pattern) {
        Ok(re) => re,
        Err(_) => return Vec::new(),
    };
    re.split(text).map(|s| s.to_string()).collect()
}

/// The text with all matches replaced, by `regex::Regex::replace_all`. The
/// contract gives its result a name that depends on the pattern, the text and
/// the template alone.
#[verifier::external_body]
pub(crate) fn replace_all(pattern: &str, text: &str, template: &str) -> (out: String)
    ensures
        out@ == replaced_matches(pattern@, text@, template@),
{
    let re = match regex::Regex::new(pattern) {
        Ok(re) => re,
        Err(_) => return text.to_string(),
    };
    re.replace_all(text, template).into_owned()
}

/// The text of a group, empty where the group took no part in the match.
pub open spec fn group(groups: Seq<Option<Seq<char>>>, i: int) -> Seq<char> {
    if 0 <= i < groups.len() {
        match groups[i] {
            Some(text) => text,
            None => Seq::empty(),
        }
    } else {
        Seq::empty()
    }
}

/// The text of a group, empty where the group took no part in the match.
pub fn group_chars(groups: &Vec<Option<String>>, i: usize) -> (text: Vec<char>)
    ensures
        text@ == group(groups.deep_view(), i as int),
{
    if i < groups.len() {
        match &groups[i] {
            Some(text) => chars_of(text.as_str()),
            None => Vec::new(),
        }
    } else {
        Vec::new()
    }
}

} // verus!
