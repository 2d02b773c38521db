//! Tolerant key/value extraction: the scanner reads its files by pattern,
//! through the regex crate, and takes what a pattern captured as plain text.

use crate::model::opt_text;
use crate::text::{chars_of, parse_unsigned, parsed_unsigned};
use vstd::prelude::*;

verus! {

/// The groups of the first match of a pattern in a text, the whole match
/// first; nothing where the pattern does not match or is no pattern.
pub uninterp spec fn regex_captures(pattern: Seq<char>, text: Seq<char>) -> Option<
    Seq<Option<Seq<char>>>,
>;

/// The groups of each match of a pattern in a text, the matches in order and
/// not overlapping; none where the pattern is no pattern.
pub uninterp spec fn regex_captures_iter(pattern: Seq<char>, text: Seq<char>) -> Seq<
    Seq<Option<Seq<char>>>,
>;

/// The texts of the groups of a match.
pub open spec fn groups_view(groups: Seq<Option<String>>) -> Seq<Option<Seq<char>>> {
    groups.map_values(|g: Option<String>| opt_text(g))
}

/// The texts of the groups of a match, if there is one.
pub open spec fn captures_view(caps: Option<Vec<Option<String>>>) -> Option<
    Seq<Option<Seq<char>>>,
> {
    match caps {
        Some(groups) => Some(groups_view(groups@)),
        None => None,
    }
}

/// The texts of the groups of each match.
pub open spec fn matches_view(all: Seq<Vec<Option<String>>>) -> Seq<Seq<Option<Seq<char>>>> {
    all.map_values(|groups: Vec<Option<String>>| groups_view(groups@))
}

/// Finds the first match of a pattern and hands out its groups as texts.
///
/// Wraps `regex::Regex::new` and `Regex::captures`; each group is read with
/// `Match::as_str`. The result depends on the pattern and the text alone, and
/// the contract only gives it its name.
#[verifier::external_body]
pub(crate) fn first_captures(pattern: &str, text: &str) -> (r: Option<Vec<Option<String>>>)
    ensures
        captures_view(r) == regex_captures(pattern@, text@),
{
    match regex::Regex::new(pattern) {
        Ok(re) => re.captures(text).map(
            |c| c.iter().map(|m| m.map(|x| x.as_str().to_string())).collect(),
        ),
        Err(_) => None,
    }
}

/// Finds every match of a pattern and hands out the groups of each as texts.
///
/// Wraps `regex::Regex::new` and `Regex::captures_iter`; each group is read
/// with `Match::as_str`. The result depends on the pattern and the text
/// alone, and the contract only gives it its name.
#[verifier::external_body]
pub(crate) fn all_captures(pattern: &str, text: &str) -> (r: Vec<Vec<Option<String>>>)
    ensures
        matches_view(r@) == regex_captures_iter(pattern@, text@),
{
    match regex::Regex::new(pattern) {
        Ok(re) => re.captures_iter(text).map(
            |c| c.iter().map(|m| m.map(|x| x.as_str().to_string())).collect(),
        ).collect(),
        Err(_) => Vec::new(),
    }
}

/// Group `i` of a match; nothing where the match has no such group or the
/// group took no part in it.
pub open spec fn group(groups: Seq<Option<Seq<char>>>, i: int) -> Option<Seq<char>> {
    if 0 <= i < groups.len() {
        groups[i]
    } else {
        None
    }
}

/// Group `i` of a first match, if there is a match.
pub open spec fn first_group(caps: Option<Seq<Option<Seq<char>>>>, i: int) -> Option<Seq<char>> {
    match caps {
        Some(groups) => group(groups, i),
        None => None,
    }
}

/// A text, or the empty text in place of none.
pub open spec fn text_or_empty(t: Option<Seq<char>>) -> Seq<char> {
    match t {
        Some(s) => s,
        None => Seq::empty(),
    }
}

/// The number that an optional text writes, where it writes one of at most
/// `limit`.
pub open spec fn number_of(t: Option<Seq<char>>, limit: u64) -> Option<u64> {
    match t {
        Some(digits) => parsed_unsigned(digits, limit),
        None => None,
    }
}

/// Group `i` of a match.
pub fn group_text(groups: &Vec<Option<String>>, i: usize) -> (r: Option<String>)
    ensures
        opt_text(r) == group(groups_view(groups@), i as int),
{
    if i < groups.len() {
        match &groups[i] {
            Some(s) => Some(s.clone()),
            None => None,
        }
    } else {
        None
    }
}

/// Group `i` of a first match, if there is a match.
pub fn first_group_text(caps: &Option<Vec<Option<String>>>, i: usize) -> (r: Option<String>)
    ensures
        opt_text(r) == first_group(captures_view(*caps), i as int),
{
    match caps {
        Some(groups) => group_text(groups, i),
        None => None,
    }
}

/// A text, or the empty text in place of none.
pub fn or_empty(t: Option<String>) -> (r: String)
    ensures
        r@ == text_or_empty(opt_text(t)),
{
    match t {
        Some(s) => s,
        None => String::new(),
    }
}

/// The number that an optional text writes.
pub fn number_in(t: &Option<String>, limit: u64) -> (r: Option<u64>)
    ensures
        r == number_of(opt_text(*t), limit),
{
    match t {
        Some(s) => {
            let digits = chars_of(s.as_str());
            parse_unsigned(&digits, limit)
        },
        None => None,
    }
}

} // verus!
