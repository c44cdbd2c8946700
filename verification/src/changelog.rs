//! What a changelog is made of: the entries of commits in their sections,
//! the notes on breaking changes, and the context of one release that a
//! template is rendered with.
use crate::config::Config;
use crate::git::Date;
use crate::pattern::opt_view;
use vstd::prelude::*;
use vstd::string::StringExecFns;

verus! {

/// A reference to an issue, with the repository it is an issue of.
#[derive(Debug, PartialEq, Eq)]
pub struct Reference {
    pub action: Option<String>,
    pub owner: String,
    pub repository: String,
    pub prefix: String,
    pub issue: String,
}

pub struct LinkModel {
    pub action: Option<Seq<char>>,
    pub owner: Seq<char>,
    pub repository: Seq<char>,
    pub prefix: Seq<char>,
    pub issue: Seq<char>,
}

impl View for Reference {
    type V = LinkModel;

    open spec fn view(&self) -> LinkModel {
        LinkModel {
            action: opt_view(self.action),
            owner: self.owner@,
            repository: self.repository@,
            prefix: self.prefix@,
            issue: self.issue@,
        }
    }
}

pub open spec fn link_views(v: Seq<Reference>) -> Seq<LinkModel> {
    v.map_values(|r: Reference| r@)
}

/// A note on a breaking change: the scope of the commit and the text of the
/// footer.
#[derive(Debug, PartialEq, Eq)]
pub struct Note {
    pub scope: Option<String>,
    pub text: String,
}

pub struct NoteModel {
    pub scope: Option<Seq<char>>,
    pub text: Seq<char>,
}

impl View for Note {
    type V = NoteModel;

    open spec fn view(&self) -> NoteModel {
        NoteModel { scope: opt_view(self.scope), text: self.text@ }
    }
}

pub open spec fn note_views(v: Seq<Note>) -> Seq<NoteModel> {
    v.map_values(|n: Note| n@)
}

/// The notes under one title.
#[derive(Debug, PartialEq, Eq)]
pub struct NoteGroup {
    pub title: String,
    pub notes: Vec<Note>,
}

pub struct NoteGroupModel {
    pub title: Seq<char>,
    pub notes: Seq<NoteModel>,
}

impl View for NoteGroup {
    type V = NoteGroupModel;

    open spec fn view(&self) -> NoteGroupModel {
        NoteGroupModel { title: self.title@, notes: note_views(self.notes@) }
    }
}

pub open spec fn note_group_views(v: Seq<NoteGroup>) -> Seq<NoteGroupModel> {
    v.map_values(|g: NoteGroup| g@)
}

/// The entry of one commit.
#[derive(Debug, PartialEq, Eq)]
pub struct CommitContext {
    pub hash: String,
    pub date: Date,
    pub subject: String,
    pub body: Option<String>,
    pub scope: Option<String>,
    pub short_hash: String,
    pub references: Vec<Reference>,
}

pub struct EntryModel {
    pub hash: Seq<char>,
    pub date: Date,
    pub subject: Seq<char>,
    pub body: Option<Seq<char>>,
    pub scope: Option<Seq<char>>,
    pub short_hash: Seq<char>,
    pub references: Seq<LinkModel>,
}

impl View for CommitContext {
    type V = EntryModel;

    open spec fn view(&self) -> EntryModel {
        EntryModel {
            hash: self.hash@,
            date: self.date,
            subject: self.subject@,
            body: opt_view(self.body),
            scope: opt_view(self.scope),
            short_hash: self.short_hash@,
            references: link_views(self.references@),
        }
    }
}

pub open spec fn entry_views(v: Seq<CommitContext>) -> Seq<EntryModel> {
    v.map_values(|e: CommitContext| e@)
}

/// The entries of one section.
#[derive(Debug, PartialEq, Eq)]
pub struct CommitGroup {
    pub title: String,
    pub commits: Vec<CommitContext>,
}

pub struct GroupModel {
    pub title: Seq<char>,
    pub commits: Seq<EntryModel>,
}

impl View for CommitGroup {
    type V = GroupModel;

    open spec fn view(&self) -> GroupModel {
        GroupModel { title: self.title@, commits: entry_views(self.commits@) }
    }
}

pub open spec fn group_views(v: Seq<CommitGroup>) -> Seq<GroupModel> {
    v.map_values(|g: CommitGroup| g@)
}

/// What is known of one release before the formats of the configuration are
/// rendered.
#[derive(Debug, PartialEq, Eq)]
pub struct ContextBase {
    pub version: String,
    pub date: Option<Date>,
    pub is_patch: bool,
    pub commit_groups: Vec<CommitGroup>,
    pub note_groups: Vec<NoteGroup>,
    pub previous_tag: String,
    pub current_tag: String,
    pub host: Option<String>,
    pub owner: Option<String>,
    pub repository: Option<String>,
    pub link_compare: bool,
    pub link_references: bool,
}

pub struct BaseModel {
    pub version: Seq<char>,
    pub date: Option<Date>,
    pub is_patch: bool,
    pub commit_groups: Seq<GroupModel>,
    pub note_groups: Seq<NoteGroupModel>,
    pub previous_tag: Seq<char>,
    pub current_tag: Seq<char>,
    pub host: Option<Seq<char>>,
    pub owner: Option<Seq<char>>,
    pub repository: Option<Seq<char>>,
    pub link_compare: bool,
    pub link_references: bool,
}

impl View for ContextBase {
    type V = BaseModel;

    open spec fn view(&self) -> BaseModel {
        BaseModel {
            version: self.version@,
            date: self.date,
            is_patch: self.is_patch,
            commit_groups: group_views(self.commit_groups@),
            note_groups: note_group_views(self.note_groups@),
            previous_tag: self.previous_tag@,
            current_tag: self.current_tag@,
            host: opt_view(self.host),
            owner: opt_view(self.owner),
            repository: opt_view(self.repository),
            link_compare: self.link_compare,
            link_references: self.link_references,
        }
    }
}

/// The context of one release, as a template is rendered with it.
#[derive(Debug, PartialEq, Eq)]
pub struct Context {
    pub context: ContextBase,
    pub compare_url_format: String,
    pub release_commit_message_format: String,
    pub user_url_format: String,
    /// Whether the two tags are compared by a link: that is asked for, and
    /// both tags are there.
    pub link_compare: bool,
}

/// The three formats of the configuration that are rendered for each
/// release.
pub struct ContextBuilder {
    pub compare_url_format: String,
    pub release_commit_message_format: String,
    pub user_url_format: String,
}

/// The three formats as they were rendered with a `ContextBase`.
pub struct Rendered {
    pub compare_url_format: String,
    pub release_commit_message_format: String,
    pub user_url_format: String,
}

impl ContextBuilder {
    /// The builder with the formats of `config`.
    pub fn new(config: &Config) -> (builder: ContextBuilder)
        ensures
            builder.compare_url_format@ == config@.compare_url_format,
            builder.release_commit_message_format@ == config@.release_commit_message_format,
            builder.user_url_format@ == config@.user_url_format,
    {
        ContextBuilder {
            compare_url_format: config.compare_url_format.clone(),
            release_commit_message_format: config.release_commit_message_format.clone(),
            user_url_format: config.user_url_format.clone(),
        }
    }

    /// The context made of `context_base` and of the formats as they were
    /// rendered with it.
    pub fn build(&self, context_base: ContextBase, rendered: Rendered) -> (context: Context)
        ensures
            context.context == context_base,
            context.compare_url_format == rendered.compare_url_format,
            context.release_commit_message_format == rendered.release_commit_message_format,
            context.user_url_format == rendered.user_url_format,
            context.link_compare == (context_base.link_compare && context_base.current_tag@.len()
                > 0 && context_base.previous_tag@.len() > 0),
    {
        let link_compare = context_base.link_compare && !context_base.current_tag.as_str().is_empty()
            && !context_base.previous_tag.as_str().is_empty();
        Context {
            context: context_base,
            compare_url_format: rendered.compare_url_format,
            release_commit_message_format: rendered.release_commit_message_format,
            user_url_format: rendered.user_url_format,
            link_compare,
        }
    }
}

/// Gathers the text of a changelog.
pub struct ChangelogWriter {
    pub writer: String,
}

impl ChangelogWriter {
    pub fn new() -> (w: ChangelogWriter)
        ensures
            w.writer@ == Seq::<char>::empty(),
    {
        ChangelogWriter { writer: String::new() }
    }

    /// Writes the header.
    pub fn write_header(&mut self, header: &str)
        ensures
            final(self).writer@ == old(self).writer@ + header@,
    {
        self.writer.append(header);
    }

    /// Writes one release, as the template rendered it.
    pub fn write_template(&mut self, rendered: &str)
        ensures
            final(self).writer@ == old(self).writer@ + rendered@,
    {
        self.writer.append(rendered);
    }
}

/// Whether a window is written: any is, unless empty ones are skipped and it
/// has no group of commits.
pub fn writes_window(skip_empty: bool, context: &Context) -> (b: bool)
    ensures
        b == (!skip_empty || context.context.commit_groups@.len() > 0),
{
    !skip_empty || context.context.commit_groups.len() > 0
}

} // verus!
