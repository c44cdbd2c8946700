//! The configuration: the commit types with their sections and increments,
//! the formats of links, and what is known of the host of the repository.
use crate::pattern::opt_view;
use crate::text::{chars_of, same, string_views};
use crate::versions::{SemVer, SemVerModel};
use vstd::prelude::*;

verus! {

/// What a commit of a type does to the version.
#[derive(Debug, Clone, Copy, PartialEq, Eq, Structural)]
pub enum Increment {
    Major,
    Minor,
    Patch,
    Nothing,
}

/// A commit type: its name, what it does to the version, the section of the
/// changelog that its commits go to, and whether that section is hidden.
#[derive(Debug, PartialEq, Eq)]
pub struct Type {
    pub ty: String,
    pub increment: Increment,
    pub section: String,
    pub hidden: bool,
}

pub struct TypeModel {
    pub ty: Seq<char>,
    pub increment: Increment,
    pub section: Seq<char>,
    pub hidden: bool,
}

impl View for Type {
    type V = TypeModel;

    open spec fn view(&self) -> TypeModel {
        TypeModel {
            ty: self.ty@,
            increment: self.increment,
            section: self.section@,
            hidden: self.hidden,
        }
    }
}

impl Clone for Type {
    fn clone(&self) -> (t: Type)
        ensures
            t@ == self@,
    {
        Type {
            ty: self.ty.clone(),
            increment: self.increment,
            section: self.section.clone(),
            hidden: self.hidden,
        }
    }
}

pub open spec fn type_views(v: Seq<Type>) -> Seq<TypeModel> {
    v.map_values(|t: Type| t@)
}

/// The increment of a type for which the configuration names none: a minor
/// one for `feat`, a patch for `fix`, none for any other.
pub open spec fn increment_of(ty: Seq<char>) -> Increment {
    if ty == "feat"@ {
        Increment::Minor
    } else if ty == "fix"@ {
        Increment::Patch
    } else {
        Increment::Nothing
    }
}

impl Type {
    /// The type as it is shown: its name.
    pub fn to_string(&self) -> (s: String)
        ensures
            s@ == self@.ty,
    {
        self.ty.clone()
    }

    /// The increment of the type named `ty` where none is configured.
    pub fn default_increment(ty: &str) -> (i: Increment)
        ensures
            i == increment_of(ty@),
    {
        let t = chars_of(ty);
        if same(&t, &chars_of("feat")) {
            Increment::Minor
        } else if same(&t, &chars_of("fix")) {
            Increment::Patch
        } else {
            Increment::Nothing
        }
    }

    /// The type with the fields that a configuration gives: where it names no
    /// increment, the type gets the one that goes with its name.
    pub fn configured(ty: String, increment: Option<Increment>, section: String, hidden: bool) -> (t:
        Type)
        ensures
            t@ == (TypeModel {
                ty: ty@,
                increment: match increment {
                    Some(i) => i,
                    None => increment_of(ty@),
                },
                section: section@,
                hidden,
            }),
    {
        let increment = match increment {
            Some(i) => i,
            None => Type::default_increment(ty.as_str()),
        };
        Type { ty, increment, section, hidden }
    }
}

pub open spec fn type_model(
    ty: Seq<char>,
    increment: Increment,
    section: Seq<char>,
    hidden: bool,
) -> TypeModel {
    TypeModel { ty, increment, section, hidden }
}

/// The types of a configuration that names none.
pub open spec fn default_type_models() -> Seq<TypeModel> {
    seq![
        type_model("feat"@, Increment::Minor, "Features"@, false),
        type_model("fix"@, Increment::Patch, "Fixes"@, false),
        type_model("build"@, Increment::Nothing, "Other"@, true),
        type_model("chore"@, Increment::Nothing, "Other"@, true),
        type_model("ci"@, Increment::Nothing, "Other"@, true),
        type_model("docs"@, Increment::Nothing, "Documentation"@, true),
        type_model("style"@, Increment::Nothing, "Other"@, true),
        type_model("refactor"@, Increment::Nothing, "Other"@, true),
        type_model("perf"@, Increment::Nothing, "Other"@, true),
        type_model("test"@, Increment::Nothing, "Other"@, true),
    ]
}

fn make_type(ty: &str, increment: Increment, section: &str, hidden: bool) -> (t: Type)
    ensures
        t@ == type_model(ty@, increment, section@, hidden),
{
    Type { ty: ty.to_owned(), increment, section: section.to_owned(), hidden }
}

pub fn default_header() -> (s: String)
    ensures
        s@ == "# Changelog\n"@,
{
    "# Changelog\n".to_owned()
}

pub fn default_types() -> (types: Vec<Type>)
    ensures
        type_views(types@) == default_type_models(),
{
    let mut types: Vec<Type> = Vec::new();
    types.push(make_type("feat", Increment::Minor, "Features", false));
    types.push(make_type("fix", Increment::Patch, "Fixes", false));
    types.push(make_type("build", Increment::Nothing, "Other", true));
    types.push(make_type("chore", Increment::Nothing, "Other", true));
    types.push(make_type("ci", Increment::Nothing, "Other", true));
    types.push(make_type("docs", Increment::Nothing, "Documentation", true));
    types.push(make_type("style", Increment::Nothing, "Other", true));
    types.push(make_type("refactor", Increment::Nothing, "Other", true));
    types.push(make_type("perf", Increment::Nothing, "Other", true));
    types.push(make_type("test", Increment::Nothing, "Other", true));
    assert(type_views(types@) =~= default_type_models());
    types
}

pub fn default_commit_url_format() -> (s: String)
    ensures
        s@ == "{{@root.host}}/{{@root.owner}}/{{@root.repository}}/commit/{{hash}}"@,
{
    "{{@root.host}}/{{@root.owner}}/{{@root.repository}}/commit/{{hash}}".to_owned()
}

pub fn default_compare_url_format() -> (s: String)
    ensures
        s@
            == "{{@root.host}}/{{@root.owner}}/{{@root.repository}}/compare/{{previousTag}}...{{currentTag}}"@,
{
    "{{@root.host}}/{{@root.owner}}/{{@root.repository}}/compare/{{previousTag}}...{{currentTag}}".to_owned()
}

pub fn default_issue_url_format() -> (s: String)
    ensures
        s@ == "{{@root.host}}/{{@root.owner}}/{{@root.repository}}/issues/{{issue}}"@,
{
    "{{@root.host}}/{{@root.owner}}/{{@root.repository}}/issues/{{issue}}".to_owned()
}

pub fn default_user_url_format() -> (s: String)
    ensures
        s@ == "{{host}}/{{user}}"@,
{
    "{{host}}/{{user}}".to_owned()
}

pub fn default_release_commit_message_format() -> (s: String)
    ensures
        s@ == "chore(release): {{currentTag}}"@,
{
    "chore(release): {{currentTag}}".to_owned()
}

pub fn default_line_length() -> (n: usize)
    ensures
        n == 80,
{
    80
}

pub fn default_issue_prefixes() -> (prefixes: Vec<String>)
    ensures
        string_views(prefixes@) == seq!["#"@],
{
    let mut prefixes: Vec<String> = Vec::new();
    prefixes.push("#".to_owned());
    assert(string_views(prefixes@) =~= seq!["#"@]);
    prefixes
}

pub fn default_scope_regex() -> (s: String)
    ensures
        s@ == "^[[:alnum:]]+(?:[-_/][[:alnum:]]+)*$"@,
{
    "^[[:alnum:]]+(?:[-_/][[:alnum:]]+)*$".to_owned()
}

pub fn default_strip_regex() -> (s: String)
    ensures
        s@ == ""@,
{
    "".to_owned()
}

pub fn default_true() -> (b: bool)
    ensures
        b,
{
    true
}

/// The configuration.
#[derive(Debug, PartialEq, Eq)]
pub struct Config {
    /// The header of the changelog.
    pub header: String,
    /// The commit types, in the order of their sections.
    pub types: Vec<Type>,
    pub pre_major: bool,
    pub commit_url_format: String,
    pub compare_url_format: String,
    pub issue_url_format: String,
    pub user_url_format: String,
    pub release_commit_message_format: String,
    /// The prefixes that a reference to an issue begins with.
    pub issue_prefixes: Vec<String>,
    pub host: Option<String>,
    pub owner: Option<String>,
    pub repository: Option<String>,
    /// The directory of the templates of the changelog.
    pub template: Option<String>,
    /// The file of the template of a commit message.
    pub commit_template: Option<String>,
    /// The pattern that a scope has to match.
    pub scope_regex: String,
    /// The length after which a line of the changelog is wrapped.
    pub line_length: usize,
    pub wrap_disabled: bool,
    pub link_compare: bool,
    pub link_references: bool,
    /// Whether merge commits are read.
    pub merges: bool,
    /// Whether only first parents are followed.
    pub first_parent: bool,
    /// The pattern whose first match is taken out of each message.
    pub strip_regex: String,
    /// The version of the first release where nothing was released yet.
    pub initial_bump_version: SemVer,
}

pub struct ConfigModel {
    pub header: Seq<char>,
    pub types: Seq<TypeModel>,
    pub pre_major: bool,
    pub commit_url_format: Seq<char>,
    pub compare_url_format: Seq<char>,
    pub issue_url_format: Seq<char>,
    pub user_url_format: Seq<char>,
    pub release_commit_message_format: Seq<char>,
    pub issue_prefixes: Seq<Seq<char>>,
    pub host: Option<Seq<char>>,
    pub owner: Option<Seq<char>>,
    pub repository: Option<Seq<char>>,
    pub template: Option<Seq<char>>,
    pub commit_template: Option<Seq<char>>,
    pub scope_regex: Seq<char>,
    pub line_length: usize,
    pub wrap_disabled: bool,
    pub link_compare: bool,
    pub link_references: bool,
    pub merges: bool,
    pub first_parent: bool,
    pub strip_regex: Seq<char>,
    pub initial_bump_version: SemVerModel,
}

impl View for Config {
    type V = ConfigModel;

    open spec fn view(&self) -> ConfigModel {
        ConfigModel {
            header: self.header@,
            types: type_views(self.types@),
            pre_major: self.pre_major,
            commit_url_format: self.commit_url_format@,
            compare_url_format: self.compare_url_format@,
            issue_url_format: self.issue_url_format@,
            user_url_format: self.user_url_format@,
            release_commit_message_format: self.release_commit_message_format@,
            issue_prefixes: string_views(self.issue_prefixes@),
            host: opt_view(self.host),
            owner: opt_view(self.owner),
            repository: opt_view(self.repository),
            template: opt_view(self.template),
            commit_template: opt_view(self.commit_template),
            scope_regex: self.scope_regex@,
            line_length: self.line_length,
            wrap_disabled: self.wrap_disabled,
            link_compare: self.link_compare,
            link_references: self.link_references,
            merges: self.merges,
            first_parent: self.first_parent,
            strip_regex: self.strip_regex@,
            initial_bump_version: self.initial_bump_version@,
        }
    }
}

/// The configuration where nothing is configured.
pub open spec fn default_config() -> ConfigModel {
    ConfigModel {
        header: "# Changelog\n"@,
        types: default_type_models(),
        pre_major: false,
        commit_url_format: "{{@root.host}}/{{@root.owner}}/{{@root.repository}}/commit/{{hash}}"@,
        compare_url_format: "{{@root.host}}/{{@root.owner}}/{{@root.repository}}/compare/{{previousTag}}...{{currentTag}}"@,
        issue_url_format: "{{@root.host}}/{{@root.owner}}/{{@root.repository}}/issues/{{issue}}"@,
        user_url_format: "{{host}}/{{user}}"@,
        release_commit_message_format: "chore(release): {{currentTag}}"@,
        issue_prefixes: seq!["#"@],
        host: None,
        owner: None,
        repository: None,
        template: None,
        commit_template: None,
        scope_regex: "^[[:alnum:]]+(?:[-_/][[:alnum:]]+)*$"@,
        line_length: 80,
        wrap_disabled: false,
        link_compare: true,
        link_references: true,
        merges: false,
        first_parent: false,
        strip_regex: ""@,
        initial_bump_version: SemVerModel::release(0, 1, 0),
    }
}

impl Default for Config {
    fn default() -> (config: Config)
        ensures
            config@ == default_config(),
    {
        Config {
            header: default_header(),
            types: default_types(),
            pre_major: false,
            commit_url_format: default_commit_url_format(),
            compare_url_format: default_compare_url_format(),
            issue_url_format: default_issue_url_format(),
            user_url_format: default_user_url_format(),
            release_commit_message_format: default_release_commit_message_format(),
            issue_prefixes: default_issue_prefixes(),
            line_length: default_line_length(),
            host: None,
            owner: None,
            repository: None,
            template: None,
            commit_template: None,
            scope_regex: default_scope_regex(),
            link_compare: true,
            link_references: true,
            merges: false,
            first_parent: false,
            wrap_disabled: false,
            strip_regex: default_strip_regex(),
            initial_bump_version: SemVer::new(0, 1, 0),
        }
    }
}

} // verus!
