//! Making a commit: what the command is asked for, what the dialog has to
//! ask, and what is made of the answers.
use crate::cli::CommitCommand;
use crate::commits::{
    result_view, Commit, CommitModel, CommitParser, ParseError, ParseErrorModel,
};
use crate::config::Type;
use crate::pattern::{opt_view, pattern_matches};
use crate::text::{
    byte_len, bytes_in, chars_of, holds, join, joined, string_of, string_views, views,
};
use vstd::prelude::*;
use vstd::string::StringExecFns;

verus! {

/// What a commit message is made of.
pub struct Dialog {
    pub ty: String,
    pub scope: String,
    pub description: String,
    pub body: String,
    pub breaking: bool,
    pub breaking_change: String,
    pub issues: Vec<String>,
    pub footers: Vec<String>,
}

/// The words above the body that the editor shows.
pub open spec fn body_note() -> Seq<char> {
    "# A longer commit body MAY be provided after the short description,\n# providing additional contextual information about the code changes.\n# The body MUST begin one blank line after the description.\n# A commit body is free-form and MAY consist of any number of newline separated paragraphs.\n# Lines starting with `#` will be ignored.\n# An empty message aborts the commit\n"@
}

pub open spec fn flag_count(cmd: CommitCommand) -> int {
    (if cmd.feat { 1int } else { 0 }) + (if cmd.fix { 1int } else { 0 }) + (if cmd.build { 1int } else { 0 })
        + (if cmd.chore { 1int } else { 0 }) + (if cmd.ci { 1int } else { 0 }) + (if cmd.docs { 1int } else { 0 })
        + (if cmd.style { 1int } else { 0 }) + (if cmd.refactor { 1int } else { 0 }) + (if cmd.perf {
        1int
    } else {
        0
    }) + (if cmd.test { 1int } else { 0 })
}

/// The name of the flag that is set, where one is.
pub open spec fn flag_name(cmd: CommitCommand) -> Seq<char> {
    if cmd.feat {
        "feat"@
    } else if cmd.fix {
        "fix"@
    } else if cmd.build {
        "build"@
    } else if cmd.chore {
        "chore"@
    } else if cmd.ci {
        "ci"@
    } else if cmd.docs {
        "docs"@
    } else if cmd.style {
        "style"@
    } else if cmd.refactor {
        "refactor"@
    } else if cmd.perf {
        "perf"@
    } else {
        "test"@
    }
}

/// The type that the command asks for: that of the one flag that is set,
/// where no type is named beside it; the type that is named, where no flag
/// is set; and none, the empty type, in any other case.
pub open spec fn asked_type(cmd: CommitCommand) -> Seq<char> {
    if flag_count(cmd) == 1 && cmd.ty is None {
        flag_name(cmd)
    } else if flag_count(cmd) == 0 {
        crate::transform::text_or_empty(opt_view(cmd.ty))
    } else {
        Seq::empty()
    }
}

fn one(b: bool) -> (n: u8)
    ensures
        n == if b { 1int } else { 0 },
{
    if b {
        1
    } else {
        0
    }
}

impl CommitCommand {
    /// The type that the command asks for.
    pub fn selected_type(&self) -> (ty: String)
        ensures
            ty@ == asked_type(*self),
    {
        let count: u8 = one(self.feat) + one(self.fix) + one(self.build) + one(self.chore) + one(
            self.ci,
        ) + one(self.docs) + one(self.style) + one(self.refactor) + one(self.perf) + one(self.test);
        if count == 1 && self.ty.is_none() {
            if self.feat {
                "feat".to_owned()
            } else if self.fix {
                "fix".to_owned()
            } else if self.build {
                "build".to_owned()
            } else if self.chore {
                "chore".to_owned()
            } else if self.ci {
                "ci".to_owned()
            } else if self.docs {
                "docs".to_owned()
            } else if self.style {
                "style".to_owned()
            } else if self.refactor {
                "refactor".to_owned()
            } else if self.perf {
                "perf".to_owned()
            } else {
                "test".to_owned()
            }
        } else if count == 0 {
            match &self.ty {
                Some(t) => t.clone(),
                None => String::new(),
            }
        } else {
            String::new()
        }
    }

    /// The description: the first message, or nothing.
    pub fn description(&self) -> (s: String)
        ensures
            s@ == if self.message@.len() > 0 {
                self.message@[0]@
            } else {
                Seq::empty()
            },
    {
        if self.message.len() > 0 {
            self.message[0].clone()
        } else {
            String::new()
        }
    }

    /// The body: the messages after the first, with a blank line between
    /// each two.
    pub fn body(&self) -> (s: String)
        ensures
            s@ == if self.message@.len() > 0 {
                join(string_views(self.message@).skip(1), "\n\n"@)
            } else {
                Seq::empty()
            },
    {
        let mut parts: Vec<Vec<char>> = Vec::new();
        let ghost all = string_views(self.message@);
        let mut i: usize = 1;
        if self.message.len() == 0 {
            return String::new();
        }
        assert(views(parts@) =~= all.skip(1).take(0));
        while i < self.message.len()
            invariant
                1 <= i <= self.message.len(),
                all == string_views(self.message@),
                views(parts@) == all.skip(1).take(i - 1),
            decreases self.message.len() - i,
        {
            let ghost prior = parts@;
            let part = chars_of(self.message[i].as_str());
            parts.push(part);
            assert(views(parts@) =~= views(prior).push(part@));
            assert(all.skip(1).take(i as int) =~= all.skip(1).take(i - 1).push(
                self.message@[i as int]@,
            ));
            i += 1;
        }
        assert(all.skip(1).take(self.message.len() - 1) =~= all.skip(1));
        string_of(&joined(&parts, &chars_of("\n\n")))
    }

    /// The footers, each as a line.
    pub fn footer_lines(&self) -> (lines: Vec<String>)
        ensures
            lines@.len() == self.footers@.len(),
            forall|i: int|
                0 <= i < lines@.len() ==> (#[trigger] lines@[i])@ == self.footers@[i].0@ + ": "@
                    + self.footers@[i].1@,
    {
        let mut lines: Vec<String> = Vec::new();
        let mut i: usize = 0;
        while i < self.footers.len()
            invariant
                i <= self.footers.len(),
                lines@.len() == i,
                forall|k: int|
                    0 <= k < i ==> (#[trigger] lines@[k])@ == self.footers@[k].0@ + ": "@
                        + self.footers@[k].1@,
            decreases self.footers.len() - i,
        {
            lines.push(self.footers[i].line());
            i += 1;
        }
        lines
    }

    /// What the dialog starts with.
    pub fn dialog(&self) -> (d: Dialog)
        ensures
            d.ty@ == asked_type(*self),
            d.scope@ == crate::transform::text_or_empty(opt_view(self.scope)),
            d.description@ == if self.message@.len() > 0 {
                self.message@[0]@
            } else {
                Seq::empty()
            },
            d.body@ == if self.message@.len() > 0 {
                join(string_views(self.message@).skip(1), "\n\n"@)
            } else {
                Seq::empty()
            },
            d.breaking == self.breaking,
            d.breaking_change@.len() == 0,
            d.issues@.len() == 0,
            d.footers@.len() == self.footers@.len(),
            forall|i: int|
                0 <= i < d.footers@.len() ==> (#[trigger] d.footers@[i])@ == self.footers@[i].0@
                    + ": "@ + self.footers@[i].1@,
    {
        Dialog {
            ty: self.selected_type(),
            scope: match &self.scope {
                Some(s) => s.clone(),
                None => String::new(),
            },
            description: self.description(),
            body: self.body(),
            breaking: self.breaking,
            breaking_change: String::new(),
            issues: Vec::new(),
            footers: self.footer_lines(),
        }
    }
}

/// The parts of `s` between spaces and commas that are not empty, among the
/// first `n` characters, with the part that is open at the end.
pub open spec fn issue_parts(s: Seq<char>, n: int) -> (Seq<Seq<char>>, Seq<char>)
    decreases n,
{
    if n <= 0 {
        (Seq::empty(), Seq::empty())
    } else {
        let (done, open) = issue_parts(s, n - 1);
        if s[n - 1] == ' ' || s[n - 1] == ',' {
            if open.len() > 0 {
                (done.push(open), Seq::empty())
            } else {
                (done, open)
            }
        } else {
            (done, open.push(s[n - 1]))
        }
    }
}

/// The issues that the answer `s` names: its parts between spaces and
/// commas that are not empty.
pub open spec fn issues_of(s: Seq<char>) -> Seq<Seq<char>> {
    let (done, open) = issue_parts(s, s.len() as int);
    if open.len() > 0 {
        done.push(open)
    } else {
        done
    }
}

pub fn read_issues(answer: &str) -> (issues: Vec<String>)
    ensures
        string_views(issues@) == issues_of(answer@),
{
    let v = chars_of(answer);
    let mut issues: Vec<String> = Vec::new();
    let mut open: Vec<char> = Vec::new();
    let mut i: usize = 0;
    assert(string_views(issues@) =~= issue_parts(v@, 0).0);
    assert(open@ =~= issue_parts(v@, 0).1);
    while i < v.len()
        invariant
            i <= v.len(),
            (string_views(issues@), open@) == issue_parts(v@, i as int),
        decreases v.len() - i,
    {
        let c = v[i];
        if c == ' ' || c == ',' {
            if open.len() > 0 {
                let ghost prior = issues@;
                let part = string_of(&open);
                issues.push(part);
                assert(string_views(issues@) =~= string_views(prior).push(part@));
                open = Vec::new();
                assert(open@ =~= Seq::empty());
            }
        } else {
            open.push(c);
        }
        i += 1;
    }
    if open.len() > 0 {
        let ghost prior = issues@;
        let part = string_of(&open);
        issues.push(part);
        assert(string_views(issues@) =~= string_views(prior).push(part@));
    }
    issues
}

impl Dialog {
    /// Whether the wizard has to ask: it is asked for, or the type or the
    /// description is missing.
    pub fn asks(&self, interactive: bool) -> (b: bool)
        ensures
            b == (interactive || self.ty@.len() == 0 || self.description@.len() == 0),
    {
        interactive || self.ty.as_str().is_empty() || self.description.as_str().is_empty()
    }

    /// Takes the answer on a breaking change.
    pub fn answer_breaking_change(&mut self, answer: String)
        ensures
            final(self).breaking_change == answer,
            final(self).breaking == (old(self).breaking || answer@.len() > 0),
            final(self).ty == old(self).ty,
            final(self).scope == old(self).scope,
            final(self).description == old(self).description,
            final(self).body == old(self).body,
            final(self).issues == old(self).issues,
            final(self).footers == old(self).footers,
    {
        self.breaking = self.breaking || !answer.as_str().is_empty();
        self.breaking_change = answer;
    }

    /// Puts the note for the editor under the body.
    pub fn annotate_body(&mut self)
        ensures
            final(self).body@ == old(self).body@ + "\n"@ + body_note(),
            final(self).ty == old(self).ty,
            final(self).scope == old(self).scope,
            final(self).description == old(self).description,
            final(self).breaking == old(self).breaking,
            final(self).breaking_change == old(self).breaking_change,
            final(self).issues == old(self).issues,
            final(self).footers == old(self).footers,
    {
        self.body.append("\n");
        self.body.append(
            "# A longer commit body MAY be provided after the short description,\n# providing additional contextual information about the code changes.\n# The body MUST begin one blank line after the description.\n# A commit body is free-form and MAY consist of any number of newline separated paragraphs.\n# Lines starting with `#` will be ignored.\n# An empty message aborts the commit\n",
        );
    }
}

/// Whether the description `input` is long enough: it takes ten bytes or
/// more.
pub fn description_accepted(input: &str) -> (r: Result<(), String>)
    ensures
        r is Ok <==> byte_len(input@) >= 10,
        r is Err ==> r->Err_0@ == "Description needs a length of at least 10 characters"@,
{
    if bytes_in(input) < 10 {
        Err("Description needs a length of at least 10 characters".to_owned())
    } else {
        Ok(())
    }
}

/// Whether the scope `input` is accepted: it matches the pattern for scopes
/// of `parser`, or it is empty.
pub fn scope_accepted(parser: &CommitParser, input: &str) -> (b: bool)
    ensures
        b == (pattern_matches(parser.scope_pattern(), input@) || input@.len() == 0),
{
    parser.scope_matches(input) || input.is_empty()
}

/// What is done with a message that was found from an earlier run.
#[derive(Debug, Clone, Copy, PartialEq, Eq, Structural)]
pub enum Recovery {
    Accept,
    Edit,
    Reject,
    AskAgain,
}

pub open spec fn recovery_of(answer: Seq<char>) -> Recovery {
    if answer == "a"@ || answer == "accept"@ {
        Recovery::Accept
    } else if answer == "e"@ || answer == "edit"@ {
        Recovery::Edit
    } else if answer == "r"@ || answer == "reject"@ {
        Recovery::Reject
    } else {
        Recovery::AskAgain
    }
}

pub fn read_recovery(answer: &str) -> (r: Recovery)
    ensures
        r == recovery_of(answer@),
{
    let a = answer.to_owned();
    if a == "a".to_owned() || a == "accept".to_owned() {
        Recovery::Accept
    } else if a == "e".to_owned() || a == "edit".to_owned() {
        Recovery::Edit
    } else if a == "r".to_owned() || a == "reject".to_owned() {
        Recovery::Reject
    } else {
        Recovery::AskAgain
    }
}

/// What follows when a message comes back from the editor.
pub enum Edited {
    /// The message is a commit of a known type: it is used.
    Done,
    /// The message is empty: the commit is cancelled.
    Cancelled,
    /// The message is not in order: the user is told why and asked whether
    /// to go on.
    Ask(String),
}

pub enum EditedModel {
    Done,
    Cancelled,
    Ask(Seq<char>),
}

impl View for Edited {
    type V = EditedModel;

    open spec fn view(&self) -> EditedModel {
        match self {
            Edited::Done => EditedModel::Done,
            Edited::Cancelled => EditedModel::Cancelled,
            Edited::Ask(s) => EditedModel::Ask(s@),
        }
    }
}

/// What follows for a message that was parsed into `parsed`, with the valid
/// types `types`.
pub open spec fn edited_of(parsed: Result<CommitModel, ParseErrorModel>, types: Seq<Seq<char>>) -> EditedModel {
    match parsed {
        Ok(commit) => if types.contains(commit.ty) {
            EditedModel::Done
        } else {
            EditedModel::Ask("wrong type: "@ + commit.ty)
        },
        Err(ParseErrorModel::EmptyCommitMessage) => EditedModel::Cancelled,
        Err(e) => EditedModel::Ask(e.message()),
    }
}

/// Judges a message that came back from the editor and was parsed.
pub fn judge_edit(parsed: &Result<Commit, ParseError>, types: &Vec<String>) -> (r: Edited)
    ensures
        r@ == edited_of(result_view(*parsed), string_views(types@)),
{
    match parsed {
        Ok(commit) => {
            if holds(types, &commit.ty) {
                Edited::Done
            } else {
                Edited::Ask("wrong type: ".to_owned().concat(commit.ty.as_str()))
            }
        },
        Err(ParseError::EmptyCommitMessage) => Edited::Cancelled,
        Err(e) => Edited::Ask(e.to_string()),
    }
}

/// The names of the types `types`.
pub fn config_types_to_conventional(types: &Vec<Type>) -> (names: Vec<String>)
    ensures
        names@.len() == types@.len(),
        forall|i: int| 0 <= i < names@.len() ==> (#[trigger] names@[i])@ == types@[i].ty@,
{
    let mut names: Vec<String> = Vec::new();
    let mut i: usize = 0;
    while i < types.len()
        invariant
            i <= types.len(),
            names@.len() == i,
            forall|k: int| 0 <= k < i ==> (#[trigger] names@[k])@ == types@[k].ty@,
        decreases types.len() - i,
    {
        names.push(types[i].ty.clone());
        i += 1;
    }
    names
}

} // verus!
