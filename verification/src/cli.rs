//! What the commands are given, and what they make of a range of revisions
//! and of a footer on the command line.
use crate::pattern::opt_view;
use crate::text::{chars_of, find, find_from, find_text, find_text_in, slice, string_of, trim, trimmed};
use vstd::prelude::*;
use vstd::string::StringExecFns;

verus! {

/// The command that shows the configuration.
#[derive(Debug)]
pub struct ConfigCommand {
    /// Whether the configuration where nothing is configured is shown.
    pub default: bool,
}

/// The command that checks the commits of a range.
#[derive(Debug)]
pub struct CheckCommand {
    /// The revision to start from, or a range of two.
    pub rev: Option<String>,
    /// How many commits are checked at most.
    pub number: Option<usize>,
    pub merges: bool,
    pub first_parent: bool,
    pub ignore_reverts: bool,
    /// Whether one message is read from the standard input.
    pub from_stdin: bool,
    /// Whether comments and blank space are stripped from that message.
    pub strip: bool,
}

/// The command that writes the changelog.
#[derive(Debug)]
pub struct ChangelogCommand {
    pub prefix: String,
    pub rev: String,
    pub skip_empty: bool,
    pub max_versions: Option<usize>,
    pub max_minors: u64,
    pub max_majors: u64,
    pub max_patches: u64,
    pub ignore_prereleases: bool,
    pub no_links: bool,
    pub merges: bool,
    pub include_hidden_sections: bool,
    pub paths: Vec<String>,
    pub first_parent: bool,
    pub line_length: Option<usize>,
    pub no_wrap: bool,
    pub unreleased: String,
    pub output: String,
}

/// A footer given on the command line: its token and its value.
#[derive(Debug, Clone, PartialEq, Eq)]
pub struct Footer(pub String, pub String);

/// The command that makes a commit.
#[derive(Debug)]
pub struct CommitCommand {
    pub fix: bool,
    pub feat: bool,
    pub build: bool,
    pub chore: bool,
    pub ci: bool,
    pub docs: bool,
    pub style: bool,
    pub refactor: bool,
    pub perf: bool,
    pub test: bool,
    pub ty: Option<String>,
    pub scope: Option<String>,
    pub message: Vec<String>,
    pub footers: Vec<Footer>,
    pub breaking: bool,
    pub interactive: bool,
    pub intent_to_add: Vec<String>,
    pub patch: bool,
    pub commit_msg_path: Option<String>,
    pub extra_args: Vec<String>,
}

/// The two parts of `s` around its first `sep`, the second part ending at
/// the next `sep`; none where `s` holds no `sep`.
pub open spec fn first_two(s: Seq<char>, sep: char) -> Option<(Seq<char>, Seq<char>)> {
    let i = find(s, sep);
    if 0 <= i < s.len() {
        let rest = s.skip(i + 1);
        Some((s.take(i), rest.take(find(rest, sep))))
    } else {
        None
    }
}

/// The footer that `s` is read as: a token and a value with a colon between
/// them, or else with `=` between them, each without the blank space around
/// it.
pub open spec fn footer_of(s: Seq<char>) -> Option<(Seq<char>, Seq<char>)> {
    match first_two(s, ':') {
        Some((k, v)) => Some((trim(k), trim(v))),
        None => match first_two(s, '=') {
            Some((k, v)) => Some((trim(k), trim(v))),
            None => None,
        },
    }
}

fn split_two(v: &Vec<char>, sep: char) -> (r: Option<(Vec<char>, Vec<char>)>)
    ensures
        match r {
            Some((a, b)) => first_two(v@, sep) == Some((a@, b@)),
            None => first_two(v@, sep) is None,
        },
{
    let i = find_from(v, 0, sep);
    assert(v@.skip(0) == v@);
    if i < v.len() {
        let j = find_from(v, i + 1, sep);
        assert(v@.take(i as int) == v@.subrange(0, i as int));
        assert(v@.skip(i + 1).take(j - (i + 1)) == v@.subrange(i + 1, j as int));
        Some((slice(v, 0, i), slice(v, i + 1, j)))
    } else {
        None
    }
}

impl Footer {
    /// The footer with the token `s.0` and the value `s.1`, each without the
    /// blank space around it.
    pub fn from(s: (&str, &str)) -> (f: Footer)
        ensures
            f.0@ == trim(s.0@),
            f.1@ == trim(s.1@),
    {
        Footer(string_of(&trimmed(&chars_of(s.0))), string_of(&trimmed(&chars_of(s.1))))
    }

    /// Reads `s` as a footer.
    pub fn parse(s: &str) -> (r: Result<Footer, String>)
        ensures
            match r {
                Ok(f) => footer_of(s@) == Some((f.0@, f.1@)),
                Err(e) => footer_of(s@) is None && e@ == "invalid footer: "@ + s@,
            },
    {
        let v = chars_of(s);
        let parts = match split_two(&v, ':') {
            Some(p) => Some(p),
            None => split_two(&v, '='),
        };
        match parts {
            Some((k, v)) => Ok(Footer(string_of(&trimmed(&k)), string_of(&trimmed(&v)))),
            None => Err("invalid footer: ".to_owned().concat(s)),
        }
    }

    /// The footer as a line of a message.
    pub fn line(&self) -> (s: String)
        ensures
            s@ == self.0@ + ": "@ + self.1@,
    {
        self.0.clone().concat(": ").concat(self.1.as_str())
    }
}

impl std::str::FromStr for Footer {
    type Err = String;

    /// Reads `s` as a footer, as `Footer::parse` does.
    fn from_str(s: &str) -> (r: Result<Self, Self::Err>)
        ensures
            match r {
                Ok(f) => footer_of(s@) == Some((f.0@, f.1@)),
                Err(e) => footer_of(s@) is None && e@ == "invalid footer: "@ + s@,
            },
    {
        Footer::parse(s)
    }
}

/// Where a walk starts and where it stops.
pub struct RevRange {
    pub to: String,
    pub stop: Option<String>,
}

pub struct RevRangeModel {
    pub to: Seq<char>,
    pub stop: Option<Seq<char>>,
}

impl View for RevRange {
    type V = RevRangeModel;

    open spec fn view(&self) -> RevRangeModel {
        RevRangeModel { to: self.to@, stop: opt_view(self.stop) }
    }
}

/// The range that `rev` stands for. Without `..` it is the revision to
/// start from. With nothing before the `..`, what follows is the revision to
/// start from. With nothing after it, the walk starts from `HEAD` and stops
/// at what stands before. Else it starts from what stands before the `..`
/// and stops at what follows.
pub open spec fn range_of(rev: Seq<char>) -> RevRangeModel {
    let i = find_text(rev, ".."@);
    if 0 <= i < rev.len() {
        let before = rev.take(i);
        let after = rev.skip(i + 2);
        if before.len() == 0 {
            RevRangeModel { to: after, stop: None }
        } else if after.len() == 0 {
            RevRangeModel { to: "HEAD"@, stop: Some(before) }
        } else {
            RevRangeModel { to: before, stop: Some(after) }
        }
    } else {
        RevRangeModel { to: rev, stop: None }
    }
}

/// Reads `rev` as a range.
pub fn split_range(rev: &str) -> (range: RevRange)
    ensures
        range@ == range_of(rev@),
{
    let v = chars_of(rev);
    let dots = chars_of("..");
    proof {
        reveal_strlit("..");
    }
    let i = find_text_in(&v, &dots);
    if i < v.len() {
        proof {
            crate::text::lemma_find_text(v@, dots@);
            assert(v@.skip(i as int).len() >= 2);
        }
        let before = slice(&v, 0, i);
        let after = slice(&v, i + 2, v.len());
        assert(v@.take(i as int) == v@.subrange(0, i as int));
        assert(v@.skip(i + 2) == v@.subrange(i + 2, v.len() as int));
        if before.len() == 0 {
            RevRange { to: string_of(&after), stop: None }
        } else if after.len() == 0 {
            RevRange { to: "HEAD".to_owned(), stop: Some(string_of(&before)) }
        } else {
            RevRange { to: string_of(&before), stop: Some(string_of(&after)) }
        }
    } else {
        RevRange { to: rev.to_owned(), stop: None }
    }
}

impl CheckCommand {
    /// The range that the command checks: that of its revision, and from
    /// `HEAD` on where none is given.
    pub fn range(&self) -> (range: RevRange)
        ensures
            range@ == match self.rev {
                Some(rev) => range_of(rev@),
                None => RevRangeModel { to: "HEAD"@, stop: None },
            },
    {
        match &self.rev {
            Some(rev) => split_range(rev.as_str()),
            None => RevRange { to: "HEAD".to_owned(), stop: None },
        }
    }
}

} // verus!
