use convco::cli::{CommitCommand, Footer};
use convco::commit_cmd::{
    config_types_to_conventional, description_accepted, judge_edit, read_issues, read_recovery,
    scope_accepted, Edited, Recovery,
};
use convco::commits::CommitParser;
use convco::config::{
    default_commit_url_format, default_compare_url_format, default_header, default_issue_prefixes,
    default_issue_url_format, default_line_length, default_release_commit_message_format,
    default_scope_regex, default_strip_regex, default_true, default_types, default_user_url_format,
    Config, Increment, Type,
};
use convco::versions::SemVer;

fn command() -> CommitCommand {
    CommitCommand {
        fix: false,
        feat: false,
        build: false,
        chore: false,
        ci: false,
        docs: false,
        style: false,
        refactor: false,
        perf: false,
        test: false,
        ty: None,
        scope: None,
        message: Vec::new(),
        footers: Vec::new(),
        breaking: false,
        interactive: false,
        intent_to_add: Vec::new(),
        patch: false,
        commit_msg_path: None,
        extra_args: Vec::new(),
    }
}

#[test]
fn type_is_that_of_the_one_flag() {
    let mut cmd = command();
    assert_eq!(cmd.selected_type(), "");
    cmd.ty = Some("custom".into());
    assert_eq!(cmd.selected_type(), "custom");
    cmd.perf = true;
    assert_eq!(cmd.selected_type(), "");
    cmd.ty = None;
    assert_eq!(cmd.selected_type(), "perf");
    cmd.feat = true;
    assert_eq!(cmd.selected_type(), "");
    let set: [(&str, fn(&mut CommitCommand)); 10] = [
        ("feat", |c| c.feat = true),
        ("fix", |c| c.fix = true),
        ("build", |c| c.build = true),
        ("chore", |c| c.chore = true),
        ("ci", |c| c.ci = true),
        ("docs", |c| c.docs = true),
        ("style", |c| c.style = true),
        ("refactor", |c| c.refactor = true),
        ("perf", |c| c.perf = true),
        ("test", |c| c.test = true),
    ];
    for (name, flag) in set {
        let mut one = command();
        flag(&mut one);
        assert_eq!(one.selected_type(), name);
    }
}

#[test]
fn dialog_starts_with_what_the_command_was_given() {
    let mut cmd = command();
    cmd.fix = true;
    cmd.scope = Some("api".into());
    cmd.message = vec!["the description".into(), "first".into(), "second".into()];
    cmd.footers = vec![Footer("Refs".into(), "#1".into())];
    cmd.breaking = true;
    let mut dialog = cmd.dialog();
    assert_eq!((dialog.ty.as_str(), dialog.scope.as_str()), ("fix", "api"));
    assert_eq!((dialog.description.as_str(), dialog.body.as_str()), ("the description", "first\n\nsecond"));
    assert_eq!(dialog.footers, vec!["Refs: #1".to_string()]);
    assert!(dialog.breaking && dialog.breaking_change.is_empty() && dialog.issues.is_empty());
    assert!(!dialog.asks(false));
    assert!(dialog.asks(true));
    dialog.annotate_body();
    assert!(dialog.body.starts_with("first\n\nsecond\n# A longer commit body MAY be provided"));
    assert!(dialog.body.ends_with("# An empty message aborts the commit\n"));
    let mut empty = command().dialog();
    assert_eq!((empty.description.as_str(), empty.body.as_str()), ("", ""));
    assert!(empty.asks(false));
    empty.answer_breaking_change(String::new());
    assert!(!empty.breaking);
    empty.answer_breaking_change("it breaks".into());
    assert!(empty.breaking);
    assert_eq!(empty.breaking_change, "it breaks");
}

#[test]
fn answers_are_read() {
    assert_eq!(read_issues("#2, #8"), vec!["#2".to_string(), "#8".to_string()]);
    assert_eq!(read_issues(" ,, #1 ,"), vec!["#1".to_string()]);
    assert!(read_issues("").is_empty());
    assert_eq!(read_recovery("a"), Recovery::Accept);
    assert_eq!(read_recovery("accept"), Recovery::Accept);
    assert_eq!(read_recovery("e"), Recovery::Edit);
    assert_eq!(read_recovery("edit"), Recovery::Edit);
    assert_eq!(read_recovery("r"), Recovery::Reject);
    assert_eq!(read_recovery("reject"), Recovery::Reject);
    assert_eq!(read_recovery("A"), Recovery::AskAgain);
    assert_eq!(read_recovery(""), Recovery::AskAgain);
    assert_eq!(description_accepted("long enough"), Ok(()));
    assert_eq!(
        description_accepted("too short"),
        Err("Description needs a length of at least 10 characters".to_string())
    );
    let parser = CommitParser::builder().scope_regex(default_scope_regex()).build();
    assert!(scope_accepted(&parser, "api"));
    assert!(scope_accepted(&parser, ""));
    assert!(!scope_accepted(&parser, "a b"));
    assert!(parser.scope_matches("api"));
    assert!(!parser.scope_matches(""));
    let word = CommitParser::builder().scope_regex("b".to_string()).build();
    assert!(word.scope_matches("a b"));
    assert!(!word.scope_matches("A B"));
}

#[test]
fn edited_message_is_judged() {
    let parser = CommitParser::builder().build();
    let types = config_types_to_conventional(&default_types());
    assert_eq!(types.len(), 10);
    assert_eq!(types[0], "feat");
    let judge = |msg: &str| match judge_edit(&parser.parse(msg), &types) {
        Edited::Done => "done".to_string(),
        Edited::Cancelled => "cancelled".to_string(),
        Edited::Ask(why) => why,
    };
    assert_eq!(judge("feat: x"), "done");
    assert_eq!(judge(""), "cancelled");
    assert_eq!(judge("tests: x"), "wrong type: tests");
    assert_eq!(judge("feat(a b): x"), "scope does not match regex: ^[[:alnum:]]+(?:[-_/][[:alnum:]]+)*$");
}

#[test]
fn configuration_where_nothing_is_configured() {
    let config = Config::default();
    assert_eq!(config.header, "# Changelog\n");
    assert_eq!(config.header, default_header());
    assert_eq!(config.types, default_types());
    assert_eq!(
        default_types()[1],
        Type { ty: "fix".into(), increment: Increment::Patch, section: "Fixes".into(), hidden: false }
    );
    assert_eq!(
        default_types()[5],
        Type { ty: "docs".into(), increment: Increment::Nothing, section: "Documentation".into(), hidden: true }
    );
    assert_eq!(
        default_commit_url_format(),
        "{{@root.host}}/{{@root.owner}}/{{@root.repository}}/commit/{{hash}}"
    );
    assert_eq!(
        default_compare_url_format(),
        "{{@root.host}}/{{@root.owner}}/{{@root.repository}}/compare/{{previousTag}}...{{currentTag}}"
    );
    assert_eq!(
        default_issue_url_format(),
        "{{@root.host}}/{{@root.owner}}/{{@root.repository}}/issues/{{issue}}"
    );
    assert_eq!(default_user_url_format(), "{{host}}/{{user}}");
    assert_eq!(default_release_commit_message_format(), "chore(release): {{currentTag}}");
    assert_eq!(default_issue_prefixes(), vec!["#".to_string()]);
    assert_eq!(default_scope_regex(), "^[[:alnum:]]+(?:[-_/][[:alnum:]]+)*$");
    assert_eq!(default_strip_regex(), "");
    assert_eq!(default_line_length(), 80);
    assert!(default_true());
    assert_eq!((config.line_length, config.link_compare, config.link_references), (80, true, true));
    assert_eq!((config.merges, config.first_parent, config.wrap_disabled, config.pre_major), (false, false, false, false));
    assert_eq!((config.host.clone(), config.template.clone()), (None, None));
    assert_eq!(config.initial_bump_version, SemVer::new(0, 1, 0));
    assert_eq!(Type::default_increment("feat"), Increment::Minor);
    assert_eq!(Type::default_increment("fix"), Increment::Patch);
    assert_eq!(Type::default_increment("docs"), Increment::Nothing);
    let t = Type::configured("feat".into(), None, "F".into(), false);
    assert_eq!((t.increment, t.to_string().as_str()), (Increment::Minor, "feat"));
    assert_eq!(Type::configured("feat".into(), Some(Increment::Major), "F".into(), true).increment, Increment::Major);
    assert_eq!(t.clone(), t);
}
