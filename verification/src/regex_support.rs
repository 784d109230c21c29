//! Calls into the `regex` crate. Each function compiles its pattern and reports what the
//! matcher found as plain strings; an invalid pattern finds nothing.
use vstd::prelude::*;
use regex::Regex;
use crate::event::ov;

verus! {

/// The compile error `regex::Regex::new` reports for a pattern, if any.
pub uninterp spec fn spec_regex_error(pattern: Seq<char>) -> Option<Seq<char>>;

/// The group names of a compiled pattern (`Regex::capture_names`), group 0 first.
pub uninterp spec fn spec_regex_group_names(pattern: Seq<char>) -> Seq<Option<Seq<char>>>;

/// All non-overlapping matches (`Regex::captures_iter`), each as the text of every group.
pub uninterp spec fn spec_regex_captures_all(pattern: Seq<char>, text: Seq<char>) -> Seq<Seq<Option<Seq<char>>>>;

/// The leftmost-first match (`Regex::captures`), as the text of every group.
pub uninterp spec fn spec_regex_captures(pattern: Seq<char>, text: Seq<char>) -> Option<Seq<Option<Seq<char>>>>;

/// The text of every non-overlapping match (`Regex::find_iter`).
pub uninterp spec fn spec_regex_find_all(pattern: Seq<char>, text: Seq<char>) -> Seq<Seq<char>>;

/// Views of the group texts of one match.
pub open spec fn groups_view(g: Vec<Option<String>>) -> Seq<Option<Seq<char>>> {
    g@.map_values(|o: Option<String>| ov(o))
}

/// Views of the group texts of several matches.
pub open spec fn matches_view(m: Vec<Vec<Option<String>>>) -> Seq<Seq<Option<Seq<char>>>> {
    m@.map_values(|g: Vec<Option<String>>| groups_view(g))
}

/// `Regex::new`: the error message for an invalid pattern, `None` for a valid one.
#[verifier::external_body]
pub(crate) fn regex_error(pattern: &str) -> (r: Option<String>)
    ensures
        ov(r) == spec_regex_error(pattern@),
{
    match Regex::new(pattern) {
        Ok(_) => None,
        Err(err) => Some(err.to_string()),
    }
}

/// `Regex::capture_names` of the compiled pattern (empty when it does not compile).
#[verifier::external_body]
pub(crate) fn regex_group_names(pattern: &str) -> (r: Vec<Option<String>>)
    ensures
        groups_view(r) == spec_regex_group_names(pattern@),
{
    match Regex::new(pattern) {
        Ok(re) => re.capture_names().map(|name| name.map(|n| n.to_string())).collect(),
        Err(_) => Vec::new(),
    }
}

/// `Regex::captures_iter` of the compiled pattern over `text` (empty when it does not compile).
#[verifier::external_body]
pub(crate) fn regex_captures_all(pattern: &str, text: &str) -> (r: Vec<Vec<Option<String>>>)
    ensures
        matches_view(r) == spec_regex_captures_all(pattern@, text@),
{
    match Regex::new(pattern) {
        Ok(re) => re.captures_iter(text).map(|caps| {
            caps.iter().map(|group| group.map(|m| m.as_str().to_string())).collect()
        }).collect(),
        Err(_) => Vec::new(),
    }
}

/// `Regex::captures` of the compiled pattern over `text` (`None` when it does not compile).
#[verifier::external_body]
pub(crate) fn regex_captures(pattern: &str, text: &str) -> (r: Option<Vec<Option<String>>>)
    ensures
        r matches Some(g) ==> spec_regex_captures(pattern@, text@) == Some(groups_view(g)),
        r is None ==> spec_regex_captures(pattern@, text@) is None,
{
    match Regex::new(pattern) {
        Ok(re) => re.captures(text).map(|caps| {
            caps.iter().map(|group| group.map(|m| m.as_str().to_string())).collect()
        }),
        Err(_) => None,
    }
}

/// `Regex::find_iter` of the compiled pattern over `text` (empty when it does not compile).
#[verifier::external_body]
pub(crate) fn regex_find_all(pattern: &str, text: &str) -> (r: Vec<String>)
    ensures
        r@.map_values(|s: String| s@) == spec_regex_find_all(pattern@, text@),
{
    match Regex::new(pattern) {
        Ok(re) => re.find_iter(text).map(|m| m.as_str().to_string()).collect(),
        Err(_) => Vec::new(),
    }
}

/// Text of group `i` of a match, or `None` when the group is absent or did not take part.
pub fn group(g: &Vec<Option<String>>, i: usize) -> (r: Option<String>)
    ensures
        ov(r) == (if i < g@.len() {
            ov(g@[i as int])
        } else {
            None
        }),
{
    if i < g.len() {
        crate::event::clone_opt(&g[i])
    } else {
        None
    }
}

} // verus!
