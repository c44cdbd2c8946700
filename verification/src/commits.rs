//! Conventional commit messages: the record a message is parsed into, the
//! grammar of its first line and of its footers, and the parser.
use crate::grammar::{
    breaking_change_token, breaking_change_words, first_line, law_marked_first_line, marked_line, all_letters, is_scope_text, is_description_text, footer_line, parse_first_line, parse_footer_line, FirstLine,
    FirstLineModel,
};
use crate::pattern::{
    clone_option, group_views, groups, made_plainly, opt_view, pattern_compiles, pattern_groups, pattern_matches,
    pattern_removed, regex_pattern, remove_first, GroupPair,
};
use crate::text::{chars_of, extend, lines, same, split_lines, string_of, trim, trimmed, views};
use regex::Regex;
use vstd::string::StringExecFns;
use vstd::prelude::*;

verus! {

/// The key of a footer: the breaking-change tag, or any other token.
#[derive(Debug, PartialEq, Eq, Clone)]
pub enum FooterKey {
    BreakingChange,
    String(String),
}

pub enum FooterKeyModel {
    BreakingChange,
    Token(Seq<char>),
}

impl View for FooterKey {
    type V = FooterKeyModel;

    open spec fn view(&self) -> FooterKeyModel {
        match self {
            FooterKey::BreakingChange => FooterKeyModel::BreakingChange,
            FooterKey::String(s) => FooterKeyModel::Token(s@),
        }
    }
}

/// The key that the text of a footer token stands for: the two spellings of
/// the breaking-change token stand for the same key.
pub open spec fn key_of(token: Seq<char>) -> FooterKeyModel {
    if token == breaking_change_words() || token == breaking_change_token() {
        FooterKeyModel::BreakingChange
    } else {
        FooterKeyModel::Token(token)
    }
}

impl FooterKeyModel {
    /// The text that the key is written as.
    pub open spec fn text(self) -> Seq<char> {
        match self {
            FooterKeyModel::BreakingChange => breaking_change_words(),
            FooterKeyModel::Token(s) => s,
        }
    }
}

impl From<&str> for FooterKey {
    /// The key that `value` stands for.
    fn from(value: &str) -> (key: FooterKey)
        ensures
            key@ == key_of(value@),
    {
        let v = chars_of(value);
        FooterKey::from_chars(&v)
    }
}

impl vstd::std_specs::convert::FromSpecImpl<&str> for FooterKey {
    open spec fn obeys_from_spec() -> bool {
        false
    }

    open spec fn from_spec(v: &str) -> Self {
        FooterKey::BreakingChange
    }
}

impl FooterKey {
    /// The key that the characters of `v` stand for.
    pub fn from_chars(v: &Vec<char>) -> (key: FooterKey)
        ensures
            key@ == key_of(v@),
    {
        let a = chars_of("BREAKING CHANGE");
        let b = chars_of("BREAKING-CHANGE");
        proof {
            reveal_strlit("BREAKING CHANGE");
            reveal_strlit("BREAKING-CHANGE");
            assert(a@ =~= breaking_change_words());
            assert(b@ =~= breaking_change_token());
        }
        if same(v, &a) || same(v, &b) {
            FooterKey::BreakingChange
        } else {
            FooterKey::String(string_of(v))
        }
    }

    /// The text that the key is written as.
    pub fn to_string(&self) -> (s: String)
        ensures
            s@ == self@.text(),
    {
        match self {
            FooterKey::BreakingChange => {
                proof {
                    reveal_strlit("BREAKING CHANGE");
                    assert("BREAKING CHANGE"@ =~= breaking_change_words());
                }
                "BREAKING CHANGE".to_owned()
            },
            FooterKey::String(s) => s.clone(),
        }
    }

    pub fn is_breaking_change(&self) -> (b: bool)
        ensures
            b == (self@ == FooterKeyModel::BreakingChange),
    {
        match self {
            FooterKey::BreakingChange => true,
            FooterKey::String(_) => false,
        }
    }
}

/// A footer of a commit message: a key and the value that follows it.
#[derive(Debug, PartialEq, Eq, Clone)]
pub struct Footer {
    pub key: FooterKey,
    pub value: String,
}

pub struct FooterModel {
    pub key: FooterKeyModel,
    pub value: Seq<char>,
}

impl View for Footer {
    type V = FooterModel;

    open spec fn view(&self) -> FooterModel {
        FooterModel { key: self.key@, value: self.value@ }
    }
}

/// A reference to an issue: the footer it was found under, if any, the
/// prefix in front of the number, and the number.
#[derive(Debug, PartialEq, Eq, Clone)]
pub struct Reference {
    pub action: Option<String>,
    pub prefix: String,
    pub issue: String,
}

pub struct ReferenceModel {
    pub action: Option<Seq<char>>,
    pub prefix: Seq<char>,
    pub issue: Seq<char>,
}

impl View for Reference {
    type V = ReferenceModel;

    open spec fn view(&self) -> ReferenceModel {
        ReferenceModel { action: opt_view(self.action), prefix: self.prefix@, issue: self.issue@ }
    }
}

pub open spec fn footer_views(v: Seq<Footer>) -> Seq<FooterModel> {
    v.map_values(|f: Footer| f@)
}

pub open spec fn reference_views(v: Seq<Reference>) -> Seq<ReferenceModel> {
    v.map_values(|r: Reference| r@)
}

/// A parsed commit message.
#[derive(Debug, PartialEq, Eq, Clone)]
pub struct Commit {
    pub ty: String,
    pub scope: Option<String>,
    pub breaking: bool,
    pub description: String,
    pub body: Option<String>,
    pub footers: Vec<Footer>,
    pub references: Vec<Reference>,
}

pub struct CommitModel {
    pub ty: Seq<char>,
    pub scope: Option<Seq<char>>,
    pub breaking: bool,
    pub description: Seq<char>,
    pub body: Option<Seq<char>>,
    pub footers: Seq<FooterModel>,
    pub references: Seq<ReferenceModel>,
}

impl CommitModel {
    /// Whether some footer has the breaking-change key.
    pub open spec fn has_breaking_footer(self) -> bool {
        exists|i: int|
            0 <= i < self.footers.len() && (#[trigger] self.footers[i]).key
                == FooterKeyModel::BreakingChange
    }

    /// A commit is breaking where its first line carries the mark or one of
    /// its footers has the breaking-change key.
    pub open spec fn is_breaking(self) -> bool {
        self.breaking || self.has_breaking_footer()
    }
}

impl View for Commit {
    type V = CommitModel;

    open spec fn view(&self) -> CommitModel {
        CommitModel {
            ty: self.ty@,
            scope: opt_view(self.scope),
            breaking: self.breaking,
            description: self.description@,
            body: opt_view(self.body),
            footers: footer_views(self.footers@),
            references: reference_views(self.references@),
        }
    }
}

impl Commit {
    pub fn is_breaking(&self) -> (b: bool)
        ensures
            b == self@.is_breaking(),
    {
        if self.breaking {
            return true;
        }
        let mut i: usize = 0;
        while i < self.footers.len()
            invariant
                i <= self.footers.len(),
                forall|k: int|
                    0 <= k < i ==> (#[trigger] self@.footers[k]).key
                        != FooterKeyModel::BreakingChange,
            decreases self.footers.len() - i,
        {
            if self.footers[i].key.is_breaking_change() {
                assert(self@.footers[i as int].key == FooterKeyModel::BreakingChange);
                return true;
            }
            i += 1;
        }
        false
    }

    /// The type of the commit, which is what a commit is shown as.
    pub fn to_string(&self) -> (s: String)
        ensures
            s@ == self@.ty,
    {
        self.ty.clone()
    }
}

/// Why a message is no conventional commit.
#[derive(Debug, PartialEq, Eq, Clone)]
pub enum ParseError {
    NoType,
    NoDescription,
    EmptyCommitMessage,
    InvalidFirstLine,
    InvalidScope(String),
}

pub enum ParseErrorModel {
    NoType,
    NoDescription,
    EmptyCommitMessage,
    InvalidFirstLine,
    InvalidScope(Seq<char>),
}

impl View for ParseError {
    type V = ParseErrorModel;

    open spec fn view(&self) -> ParseErrorModel {
        match self {
            ParseError::NoType => ParseErrorModel::NoType,
            ParseError::NoDescription => ParseErrorModel::NoDescription,
            ParseError::EmptyCommitMessage => ParseErrorModel::EmptyCommitMessage,
            ParseError::InvalidFirstLine => ParseErrorModel::InvalidFirstLine,
            ParseError::InvalidScope(p) => ParseErrorModel::InvalidScope(p@),
        }
    }
}

/// A line of a message after the first, with what the pattern for references
/// found in it.
pub struct LineScan {
    pub line: String,
    pub groups: Vec<GroupPair>,
}

pub struct LineScanModel {
    pub line: Seq<char>,
    pub groups: Seq<(Option<Seq<char>>, Option<Seq<char>>)>,
}

impl View for LineScan {
    type V = LineScanModel;

    open spec fn view(&self) -> LineScanModel {
        LineScanModel { line: self.line@, groups: group_views(self.groups@) }
    }
}

pub open spec fn scan_views(v: Seq<LineScan>) -> Seq<LineScanModel> {
    v.map_values(|s: LineScan| s@)
}

/// The references that the matches in `groups` stand for, found under
/// `action`. A match counts where both its groups took part: the first is the
/// prefix, the second the number of the issue.
pub open spec fn references_of(
    groups: Seq<(Option<Seq<char>>, Option<Seq<char>>)>,
    action: Option<Seq<char>>,
) -> Seq<ReferenceModel>
    decreases groups.len(),
{
    if groups.len() == 0 {
        Seq::empty()
    } else {
        let before = references_of(groups.drop_last(), action);
        match groups.last() {
            (Some(prefix), Some(issue)) => before.push(ReferenceModel { action, prefix, issue }),
            _ => before,
        }
    }
}

/// What has been read of a message after its first line.
pub struct Parts {
    pub body: Seq<char>,
    pub footers: Seq<FooterModel>,
    pub references: Seq<ReferenceModel>,
}

/// The footer that is open after the footers `footers`, as the action of the
/// references found under it.
pub open spec fn open_action(footers: Seq<FooterModel>) -> Option<Seq<char>> {
    if footers.len() > 0 {
        Some(footers.last().key.text())
    } else {
        None
    }
}

/// The footers after the line `line`: a footer line opens a footer; any
/// other line goes on a new line of the value of the footer that is open.
pub open spec fn footers_after(footers: Seq<FooterModel>, line: Seq<char>) -> Seq<FooterModel> {
    match footer_line(line) {
        Some((key, value)) => footers.push(FooterModel { key: key_of(key), value }),
        None => if footers.len() == 0 {
            footers
        } else {
            footers.drop_last().push(
                FooterModel {
                    key: footers.last().key,
                    value: footers.last().value + seq!['\n'] + line,
                },
            )
        },
    }
}

/// The body after the line `line`: a line that is no footer line, read while
/// no footer is open, is added to the body with a line feed after it.
pub open spec fn body_after(body: Seq<char>, footers: Seq<FooterModel>, line: Seq<char>) -> Seq<
    char,
> {
    if footer_line(line) is None && footers.len() == 0 {
        body + line + seq!['\n']
    } else {
        body
    }
}

/// The parts after one more line. Its references are found under the footer
/// that is open once the line is read.
pub open spec fn parts_after(parts: Parts, scan: LineScanModel) -> Parts {
    let footers = footers_after(parts.footers, scan.line);
    Parts {
        body: body_after(parts.body, parts.footers, scan.line),
        footers,
        references: parts.references + references_of(scan.groups, open_action(footers)),
    }
}

/// The parts after the first `n` of the lines `scans`.
pub open spec fn parts_upto(start: Parts, scans: Seq<LineScanModel>, n: int) -> Parts
    decreases n,
{
    if n <= 0 {
        start
    } else {
        parts_after(parts_upto(start, scans, n - 1), scans[n - 1])
    }
}

/// The body of a commit: what was gathered, trimmed; none where nothing is
/// left.
pub open spec fn body_of(gathered: Seq<char>) -> Option<Seq<char>> {
    if trim(gathered).len() == 0 {
        None
    } else {
        Some(trim(gathered))
    }
}

/// The commit that a first line, the matches of the pattern for references
/// in its description, and the lines after it make.
pub open spec fn assemble(
    first: FirstLineModel,
    description_groups: Seq<(Option<Seq<char>>, Option<Seq<char>>)>,
    scans: Seq<LineScanModel>,
) -> CommitModel {
    let start = Parts {
        body: Seq::empty(),
        footers: Seq::empty(),
        references: references_of(description_groups, None),
    };
    let parts = parts_upto(start, scans, scans.len() as int);
    CommitModel {
        ty: first.ty,
        scope: first.scope,
        breaking: first.breaking,
        description: first.description,
        body: body_of(parts.body),
        footers: parts.footers,
        references: parts.references,
    }
}

/// Adds to `references` the references that `groups` stand for.
fn push_references(references: &mut Vec<Reference>, groups: &Vec<GroupPair>, action: &Option<String>)
    ensures
        reference_views(final(references)@) == reference_views(old(references)@) + references_of(
            group_views(groups@),
            opt_view(*action),
        ),
{
    let ghost before = reference_views(references@);
    let ghost all = group_views(groups@);
    let mut i: usize = 0;
    assert(before + references_of(all.take(0), opt_view(*action)) == before);
    while i < groups.len()
        invariant
            i <= groups.len(),
            all == group_views(groups@),
            reference_views(references@) == before + references_of(
                all.take(i as int),
                opt_view(*action),
            ),
        decreases groups.len() - i,
    {
        let ghost done = references_of(all.take(i as int), opt_view(*action));
        let ghost prior = references@;
        assert(all.take(i + 1).drop_last() == all.take(i as int));
        assert(all.take(i + 1).last() == groups@[i as int]@);
        let g = &groups[i];
        match (&g.first, &g.second) {
            (Some(prefix), Some(issue)) => {
                let r = Reference {
                    action: clone_option(action),
                    prefix: prefix.clone(),
                    issue: issue.clone(),
                };
                references.push(r);
                assert(reference_views(references@) == reference_views(prior).push(r@));
                assert(before + done.push(r@) == (before + done).push(r@));
            },
            _ => {},
        }
        i += 1;
    }
    assert(all.take(groups.len() as int) == all);
}

/// Builds the commit from its first line, from what the pattern for
/// references found in the description, and from the lines that follow with
/// what it found in each.
pub fn assemble_commit(
    first: FirstLine,
    description_groups: &Vec<GroupPair>,
    scans: &Vec<LineScan>,
) -> (commit: Commit)
    ensures
        commit@ == assemble(first@, group_views(description_groups@), scan_views(scans@)),
{
    let mut body: Vec<char> = Vec::new();
    let mut footers: Vec<Footer> = Vec::new();
    let mut references: Vec<Reference> = Vec::new();
    let none: Option<String> = None;
    push_references(&mut references, description_groups, &none);
    let ghost start = Parts {
        body: Seq::empty(),
        footers: Seq::empty(),
        references: references_of(group_views(description_groups@), None),
    };
    let ghost all = scan_views(scans@);
    assert(reference_views(references@) == start.references);
    assert(footer_views(footers@) == start.footers);
    let mut i: usize = 0;
    while i < scans.len()
        invariant
            i <= scans.len(),
            all == scan_views(scans@),
            parts_upto(start, all, i as int) == (Parts {
                body: body@,
                footers: footer_views(footers@),
                references: reference_views(references@),
            }),
        decreases scans.len() - i,
    {
        let ghost parts = parts_upto(start, all, i as int);
        assert(all[i as int] == scans@[i as int]@);
        let scan = &scans[i];
        let line = chars_of(scan.line.as_str());
        match parse_footer_line(&line) {
            Some((key, value)) => {
                let ghost prior = footers@;
                let footer = Footer { key: FooterKey::from_chars(&key), value: string_of(&value) };
                footers.push(footer);
                assert(footer_views(footers@) == footer_views(prior).push(footer@));
            },
            None => {
                if footers.len() == 0 {
                    extend(&mut body, &line);
                    body.push('\n');
                    assert(body@ == parts.body + line@ + seq!['\n']);
                } else {
                    let ghost prior = footers@;
                    let mut last = footers.pop().unwrap();
                    let ghost popped = footers@;
                    let ghost last_before = last@;
                    last.value.append("\n");
                    last.value.append(scan.line.as_str());
                    proof {
                        reveal_strlit("\n");
                        assert("\n"@ =~= seq!['\n']);
                    }
                    footers.push(last);
                    assert(footer_views(popped) == footer_views(prior).drop_last());
                    assert(footer_views(prior).last() == last_before);
                    assert(footer_views(footers@) == footer_views(popped).push(last@));
                }
            },
        }
        assert(footer_views(footers@) == footers_after(parts.footers, line@));
        assert(body@ == body_after(parts.body, parts.footers, line@));
        let action: Option<String> = if footers.len() > 0 {
            Some(footers[footers.len() - 1].key.to_string())
        } else {
            None
        };
        assert(opt_view(action) == open_action(footer_views(footers@)));
        push_references(&mut references, &scan.groups, &action);
        i += 1;
    }
    let kept = trimmed(&body);
    let body_text: Option<String> = if kept.len() == 0 {
        None
    } else {
        Some(string_of(&kept))
    };
    Commit {
        ty: first.ty,
        scope: first.scope,
        breaking: first.breaking,
        description: first.description,
        body: body_text,
        footers,
        references,
    }
}

pub open spec fn result_view(r: Result<Commit, ParseError>) -> Result<CommitModel, ParseErrorModel> {
    match r {
        Ok(c) => Ok(c@),
        Err(e) => Err(e@),
    }
}

/// The lines `lines` after the first, each with what the regular expression
/// `references` finds in it.
pub open spec fn scans_of(references: Seq<char>, lines: Seq<Seq<char>>) -> Seq<LineScanModel> {
    Seq::new(
        (lines.len() - 1) as nat,
        |i: int|
            LineScanModel {
                line: lines[i + 1],
                groups: pattern_groups(references, lines[i + 1]),
            },
    )
}

/// What a parser with the patterns `strip`, `scope` and `references` makes of
/// the message `msg`. The first match of `strip` is taken out; then the first
/// line is read by the grammar, its scope is held against `scope`, and the
/// commit is assembled from the lines with what `references` finds in them.
pub open spec fn parse_model(
    strip: Seq<char>,
    scope: Seq<char>,
    references: Seq<char>,
    msg: Seq<char>,
) -> Result<CommitModel, ParseErrorModel> {
    let all = lines(pattern_removed(strip, msg));
    if all.len() == 0 {
        Err(ParseErrorModel::EmptyCommitMessage)
    } else {
        match first_line(all[0]) {
            None => Err(ParseErrorModel::InvalidFirstLine),
            Some(first) => if first.scope is Some && !pattern_matches(scope, first.scope->0) {
                Err(ParseErrorModel::InvalidScope(scope))
            } else {
                Ok(
                    assemble(
                        first,
                        pattern_groups(references, first.description),
                        scans_of(references, all),
                    ),
                )
            },
        }
    }
}

/// A parser of commit messages, with its three compiled patterns.
pub struct CommitParser {
    regex_scope: Regex,
    regex_references: Regex,
    regex_strip: Regex,
}

impl CommitParser {
    /// Each of the three patterns was compiled from its text alone.
    #[verifier::type_invariant]
    spec fn compiled_plainly(self) -> bool {
        made_plainly(self.regex_scope) && made_plainly(self.regex_references) && made_plainly(
            self.regex_strip,
        )
    }

    /// The pattern that a scope has to match.
    pub closed spec fn scope_pattern(&self) -> Seq<char> {
        regex_pattern(self.regex_scope)
    }

    /// The pattern that finds references to issues.
    pub closed spec fn references_pattern(&self) -> Seq<char> {
        regex_pattern(self.regex_references)
    }

    /// The pattern whose first match is taken out of a message.
    pub closed spec fn strip_pattern(&self) -> Seq<char> {
        regex_pattern(self.regex_strip)
    }

    pub fn builder() -> (b: CommitParserBuilder)
        ensures
            b@ == default_patterns(),
    {
        CommitParserBuilder::new()
    }

    /// Whether `scope` matches the pattern for scopes.
    pub fn scope_matches(&self, scope: &str) -> (b: bool)
        ensures
            b == pattern_matches(self.scope_pattern(), scope@),
    {
        proof {
            use_type_invariant(self);
        }
        self.regex_scope.is_match(scope)
    }

    /// Parses `msg` as a conventional commit.
    pub fn parse(&self, msg: &str) -> (r: Result<Commit, ParseError>)
        ensures
            result_view(r) == parse_model(
                self.strip_pattern(),
                self.scope_pattern(),
                self.references_pattern(),
                msg@,
            ),
    {
        proof {
            use_type_invariant(self);
        }
        let stripped = remove_first(&self.regex_strip, msg);
        let chars = chars_of(stripped.as_str());
        let all = split_lines(&chars);
        if all.len() == 0 {
            return Err(ParseError::EmptyCommitMessage);
        }
        assert(views(all@)[0] == all@[0]@);
        let first = match parse_first_line(&all[0]) {
            None => {
                return Err(ParseError::InvalidFirstLine);
            },
            Some(first) => first,
        };
        match &first.scope {
            Some(scope) => {
                if !self.scope_matches(scope.as_str()) {
                    return Err(ParseError::InvalidScope(self.regex_scope.as_str().to_owned()));
                }
            },
            None => {},
        }
        let description_groups = groups(&self.regex_references, first.description.as_str());
        let mut scans: Vec<LineScan> = Vec::new();
        let ghost wanted = scans_of(self.references_pattern(), views(all@));
        let mut i: usize = 1;
        while i < all.len()
            invariant
                1 <= i <= all.len(),
                made_plainly(self.regex_references),
                wanted == scans_of(self.references_pattern(), views(all@)),
                scan_views(scans@) == wanted.take(i - 1),
            decreases all.len() - i,
        {
            let ghost prior = scans@;
            assert(views(all@)[i as int] == all@[i as int]@);
            let line = string_of(&all[i]);
            let found = groups(&self.regex_references, line.as_str());
            let scan = LineScan { line, groups: found };
            scans.push(scan);
            assert(scan_views(scans@) == scan_views(prior).push(scan@));
            assert(wanted.take(i as int) == wanted.take(i - 1).push(wanted[i - 1]));
            i += 1;
        }
        assert(wanted.take(all.len() - 1) == wanted);
        Ok(assemble_commit(first, &description_groups, &scans))
    }
}

/// The three patterns that a parser is built from.
pub struct Patterns {
    pub scope: Seq<char>,
    pub references: Seq<char>,
    pub strip: Seq<char>,
}

/// The patterns of a builder that nothing was set on: a scope is made of
/// letters and digits, in groups with `-`, `_` or `/` between each two; a
/// reference is `#` and a number; nothing is stripped.
pub open spec fn default_patterns() -> Patterns {
    Patterns {
        scope: "^[[:alnum:]]+(?:[-_/][[:alnum:]]+)*$"@,
        references: "(#)([0-9]+)"@,
        strip: ""@,
    }
}

/// Which of a builder's patterns does not compile.
#[derive(Debug, PartialEq, Eq, Clone, Copy)]
pub enum InvalidPattern {
    Scope,
    References,
    Strip,
}

/// Builds a `CommitParser`.
pub struct CommitParserBuilder {
    scope_regex: String,
    references_regex: String,
    strip_regex: String,
}

impl View for CommitParserBuilder {
    type V = Patterns;

    closed spec fn view(&self) -> Patterns {
        Patterns {
            scope: self.scope_regex@,
            references: self.references_regex@,
            strip: self.strip_regex@,
        }
    }
}

impl Patterns {
    /// Whether all three patterns compile.
    pub open spec fn compile(self) -> bool {
        pattern_compiles(self.scope) && pattern_compiles(self.references) && pattern_compiles(
            self.strip,
        )
    }

    /// The first of the three that does not compile.
    pub open spec fn first_invalid(self) -> Option<InvalidPattern> {
        if !pattern_compiles(self.scope) {
            Some(InvalidPattern::Scope)
        } else if !pattern_compiles(self.references) {
            Some(InvalidPattern::References)
        } else if !pattern_compiles(self.strip) {
            Some(InvalidPattern::Strip)
        } else {
            None
        }
    }
}

impl CommitParser {
    /// Whether the parser holds the patterns `patterns`.
    pub open spec fn has_patterns(&self, patterns: Patterns) -> bool {
        &&& self.scope_pattern() == patterns.scope
        &&& self.references_pattern() == patterns.references
        &&& self.strip_pattern() == patterns.strip
    }
}

impl CommitParserBuilder {
    pub fn new() -> (b: Self)
        ensures
            b@ == default_patterns(),
    {
        CommitParserBuilder {
            scope_regex: "^[[:alnum:]]+(?:[-_/][[:alnum:]]+)*$".to_owned(),
            references_regex: "(#)([0-9]+)".to_owned(),
            strip_regex: "".to_owned(),
        }
    }

    pub fn scope_regex(self, scope_regex: String) -> (b: Self)
        ensures
            b@ == (Patterns { scope: scope_regex@, ..self@ }),
    {
        CommitParserBuilder {
            scope_regex,
            references_regex: self.references_regex,
            strip_regex: self.strip_regex,
        }
    }

    pub fn references_regex(self, references_regex: String) -> (b: Self)
        ensures
            b@ == (Patterns { references: references_regex@, ..self@ }),
    {
        CommitParserBuilder {
            references_regex,
            scope_regex: self.scope_regex,
            strip_regex: self.strip_regex,
        }
    }

    pub fn strip_regex(self, strip_regex: String) -> (b: Self)
        ensures
            b@ == (Patterns { strip: strip_regex@, ..self@ }),
    {
        CommitParserBuilder {
            strip_regex,
            references_regex: self.references_regex,
            scope_regex: self.scope_regex,
        }
    }

    /// The parser with the builder's patterns, all of which compile.
    pub fn build(&self) -> (parser: CommitParser)
        requires
            self@.compile(),
        ensures
            parser.has_patterns(self@),
    {
        let regex_scope = match Regex::new(self.scope_regex.as_str()) {
            Ok(re) => re,
            Err(_) => vstd::pervasive::unreached(),
        };
        let regex_references = match Regex::new(self.references_regex.as_str()) {
            Ok(re) => re,
            Err(_) => vstd::pervasive::unreached(),
        };
        let regex_strip = match Regex::new(self.strip_regex.as_str()) {
            Ok(re) => re,
            Err(_) => vstd::pervasive::unreached(),
        };
        CommitParser { regex_scope, regex_references, regex_strip }
    }

    /// The parser with the builder's patterns, or the first of them that does
    /// not compile.
    pub fn try_build(&self) -> (r: Result<CommitParser, InvalidPattern>)
        ensures
            match r {
                Ok(parser) => self@.compile() && parser.has_patterns(self@),
                Err(which) => self@.first_invalid() == Some(which),
            },
    {
        if Regex::new(self.scope_regex.as_str()).is_err() {
            Err(InvalidPattern::Scope)
        } else if Regex::new(self.references_regex.as_str()).is_err() {
            Err(InvalidPattern::References)
        } else if Regex::new(self.strip_regex.as_str()).is_err() {
            Err(InvalidPattern::Strip)
        } else {
            Ok(self.build())
        }
    }
}

impl ParseErrorModel {
    /// The error in words.
    pub open spec fn message(self) -> Seq<char> {
        match self {
            ParseErrorModel::NoType => "missing type"@,
            ParseErrorModel::NoDescription => "missing description"@,
            ParseErrorModel::EmptyCommitMessage => "empty commit message"@,
            ParseErrorModel::InvalidFirstLine =>
                "first line doesn't match `<type>[optional scope]: <description>`"@,
            ParseErrorModel::InvalidScope(pattern) => "scope does not match regex: "@ + pattern,
        }
    }
}

impl ParseError {
    /// The error in words.
    pub fn to_string(&self) -> (s: String)
        ensures
            s@ == self@.message(),
    {
        match self {
            ParseError::NoType => "missing type".to_owned(),
            ParseError::NoDescription => "missing description".to_owned(),
            ParseError::EmptyCommitMessage => "empty commit message".to_owned(),
            ParseError::InvalidFirstLine =>
                "first line doesn't match `<type>[optional scope]: <description>`".to_owned(),
            ParseError::InvalidScope(pattern) => {
                "scope does not match regex: ".to_owned().concat(pattern.as_str())
            },
        }
    }
}

/// The two spellings of the breaking-change key stand for one key, and a
/// commit with a footer under either is breaking.
pub proof fn law_breaking_change_synonyms(commit: CommitModel, i: int)
    requires
        0 <= i < commit.footers.len(),
        commit.footers[i].key == key_of(breaking_change_words()) || commit.footers[i].key
            == key_of(breaking_change_token()),
    ensures
        key_of(breaking_change_words()) == key_of(breaking_change_token()),
        key_of(breaking_change_words()) == FooterKeyModel::BreakingChange,
        commit.is_breaking(),
{
    assert(commit.footers[i].key == FooterKeyModel::BreakingChange);
}

/// A message whose first line, once the pattern to strip is taken out, is
/// `type(scope)!: description` is parsed into a breaking change with this
/// scope, unless the scope does not match the pattern for scopes.
pub proof fn law_marked_commit(
    strip: Seq<char>,
    scope_pattern: Seq<char>,
    references: Seq<char>,
    msg: Seq<char>,
    ty: Seq<char>,
    scope: Seq<char>,
    description: Seq<char>,
)
    requires
        ty.len() > 0,
        all_letters(ty),
        is_scope_text(scope),
        is_description_text(description),
        lines(pattern_removed(strip, msg)).len() > 0,
        lines(pattern_removed(strip, msg))[0] == marked_line(ty, scope, description),
    ensures
        match parse_model(strip, scope_pattern, references, msg) {
            Ok(commit) => commit.breaking && commit.scope == Some(scope) && commit.ty == ty
                && commit.description == description && pattern_matches(scope_pattern, scope),
            Err(e) => e == ParseErrorModel::InvalidScope(scope_pattern) && !pattern_matches(
                scope_pattern,
                scope,
            ),
        },
{
    law_marked_first_line(ty, scope, description);
}

/// The key that the footer line `line` opens a footer with.
pub open spec fn opened_key(line: Seq<char>) -> Seq<char> {
    match footer_line(line) {
        Some((key, value)) => key,
        None => Seq::empty(),
    }
}

/// The value on the footer line `line`.
pub open spec fn opened_value(line: Seq<char>) -> Seq<char> {
    match footer_line(line) {
        Some((key, value)) => value,
        None => Seq::empty(),
    }
}

/// The value of the last footer after the lines `scans[from..to]`, none of
/// which is a footer line, were read under it: each goes on a new line.
pub open spec fn continued(value: Seq<char>, scans: Seq<LineScanModel>, from: int, to: int) -> Seq<char>
    decreases to - from,
{
    if to <= from {
        value
    } else {
        continued(value, scans, from, to - 1) + seq!['\n'] + scans[to - 1].line
    }
}

/// The lines between a footer line and the next one go into the value of
/// that footer, each on a new line: where the line `scans[i]` is a footer
/// line and none of the lines after it up to `scans[j - 1]` is, the last
/// footer after these lines is the one that `scans[i]` opened, and its value
/// is the value on that line with the lines after it.
pub proof fn law_footer_continues(start: Parts, scans: Seq<LineScanModel>, i: int, j: int)
    requires
        0 <= i < j <= scans.len(),
        footer_line(scans[i].line) is Some,
        forall|k: int| i < k < j ==> footer_line((#[trigger] scans[k]).line) is None,
    ensures
        parts_upto(start, scans, j).footers.len() == parts_upto(start, scans, i).footers.len() + 1,
        parts_upto(start, scans, j).footers.last().key == key_of(opened_key(scans[i].line)),
        parts_upto(start, scans, j).footers.last().value == continued(
            opened_value(scans[i].line),
            scans,
            i + 1,
            j,
        ),
        parts_upto(start, scans, j).body == parts_upto(start, scans, i + 1).body,
    decreases j - i,
{
    if j > i + 1 {
        law_footer_continues(start, scans, i, j - 1);
        assert(footer_line(scans[j - 1].line) is None);
    }
}

} // verus!
