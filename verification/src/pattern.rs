//! Regular expressions of the `regex` crate, as far as the commit grammar
//! leaves matching to patterns that the user configures.
//!
//! What a compiled `Regex` finds in a text is named here as a function of
//! its pattern and the text. That holds of a `Regex` that was compiled from
//! its pattern alone, as `Regex::new` does; one that was built with other
//! options holds the same pattern and matches otherwise. So `Regex::new`
//! says of what it gives that it was made plainly, and each item that
//! matches asks for such a value.
use regex::Regex;
use vstd::prelude::*;

verus! {

#[verifier::external_type_specification]
#[verifier::external_body]
pub struct ExRegex(regex::Regex);

#[verifier::external_type_specification]
#[verifier::external_body]
pub struct ExRegexError(regex::Error);

/// The pattern that `re` holds: the text it was compiled from.
pub uninterp spec fn regex_pattern(re: Regex) -> Seq<char>;

/// Whether `re` was compiled from its pattern alone, with every option at
/// its default, as `Regex::new` compiles.
pub uninterp spec fn made_plainly(re: Regex) -> bool;

/// Whether `pattern` compiles to a regular expression.
pub uninterp spec fn pattern_compiles(pattern: Seq<char>) -> bool;

/// Whether the regular expression `pattern` matches somewhere in `text`.
pub uninterp spec fn pattern_matches(pattern: Seq<char>, text: Seq<char>) -> bool;

/// `text` without the first match of the regular expression `pattern`.
pub uninterp spec fn pattern_removed(pattern: Seq<char>, text: Seq<char>) -> Seq<char>;

/// For each match of the regular expression `pattern` in `text`, from left
/// to right and none overlapping another, what its first and its second
/// group matched; `None` for a group that the pattern lacks or that took no
/// part in the match.
pub uninterp spec fn pattern_groups(pattern: Seq<char>, text: Seq<char>) -> Seq<
    (Option<Seq<char>>, Option<Seq<char>>),
>;

/// `Regex::new`: fails or gives a regex that holds the pattern it was given
/// and was compiled from it alone.
pub assume_specification[ Regex::new ](re: &str) -> (r: Result<Regex, regex::Error>)
    ensures
        r is Ok <==> pattern_compiles(re@),
        r is Ok ==> regex_pattern(r->Ok_0) == re@ && made_plainly(r->Ok_0),
;

/// `Regex::as_str`: the pattern that the regex was compiled from.
pub assume_specification<'a>[ Regex::as_str ](re: &'a Regex) -> (s: &'a str)
    ensures
        s@ == regex_pattern(*re),
;

/// `Regex::is_match` of a regex that was made plainly: whether its pattern
/// matches anywhere in the text.
pub assume_specification[ Regex::is_match ](re: &Regex, haystack: &str) -> (b: bool)
    requires
        made_plainly(*re),
    ensures
        b == pattern_matches(regex_pattern(*re), haystack@),
;

/// `Regex::replace` with an empty replacement, of a regex that was made
/// plainly: the text without the leftmost match of its pattern, or the text
/// itself where nothing matches.
#[verifier::external_body]
pub(crate) fn remove_first(re: &Regex, text: &str) -> (r: String)
    requires
        made_plainly(*re),
    ensures
        r@ == pattern_removed(regex_pattern(*re), text@),
{
    re.replace(text, "").into_owned()
}

/// The first and second group of a match, each as an owned string.
pub struct GroupPair {
    pub first: Option<String>,
    pub second: Option<String>,
}

pub open spec fn opt_view(o: Option<String>) -> Option<Seq<char>> {
    match o {
        Some(s) => Some(s@),
        None => None,
    }
}

/// A copy of `o`.
pub fn clone_option(o: &Option<String>) -> (r: Option<String>)
    ensures
        opt_view(r) == opt_view(*o),
{
    match o {
        Some(s) => Some(s.clone()),
        None => None,
    }
}

impl View for GroupPair {
    type V = (Option<Seq<char>>, Option<Seq<char>>);

    open spec fn view(&self) -> Self::V {
        (opt_view(self.first), opt_view(self.second))
    }
}

pub open spec fn group_views(v: Seq<GroupPair>) -> Seq<(Option<Seq<char>>, Option<Seq<char>>)> {
    v.map_values(|g: GroupPair| g@)
}

/// `Regex::captures_iter` of a regex that was made plainly, and
/// `Captures::get` for the groups 1 and 2 of each match it yields.
#[verifier::external_body]
pub(crate) fn groups(re: &Regex, text: &str) -> (r: Vec<GroupPair>)
    requires
        made_plainly(*re),
    ensures
        group_views(r@) == pattern_groups(regex_pattern(*re), text@),
{
    re.captures_iter(text).map(
        |c| GroupPair {
            first: c.get(1).map(|m| m.as_str().to_owned()),
            second: c.get(2).map(|m| m.as_str().to_owned()),
        },
    ).collect()
}

} // verus!
