use convco::changelog::{
    ChangelogWriter, CommitGroup, Context, ContextBase, ContextBuilder, Note, NoteGroup, Rendered,
    writes_window,
};
use convco::cli::ChangelogCommand;
use convco::commits::{CommitParser, ParseError};
use convco::config::{default_types, Config, Increment, Type};
use convco::git::{Commit, Date, RawCommit, RevWalkOptions, TimeOutOfRange, Visited};
use convco::releases::{find_last_version, semver_tags, TagRef, VersionAndTag};
use convco::transform::{
    add_entry, find_position, make_entry, make_notes, section_for, sort_commit_groups, transform,
    Rev, Unreleased,
};
use convco::versions::SemVer;
use convco::windows::{references_pattern, strip_prefix, windows};

fn raw(id: &str, message: &str) -> RawCommit {
    RawCommit {
        id: format!("{:0<40}", id),
        short_id: format!("{:0<7}", id),
        message: message.to_string(),
        parents: 1,
        seconds: 1_700_000_000,
        offset_seconds: 0,
    }
}

fn command() -> ChangelogCommand {
    ChangelogCommand {
        prefix: "v".into(),
        rev: "HEAD".into(),
        skip_empty: false,
        max_versions: None,
        max_minors: u64::MAX,
        max_majors: u64::MAX,
        max_patches: u64::MAX,
        ignore_prereleases: false,
        no_links: false,
        merges: false,
        include_hidden_sections: false,
        paths: Vec::new(),
        first_parent: false,
        line_length: None,
        no_wrap: false,
        unreleased: "Unreleased".into(),
        output: "-".into(),
    }
}

/// The history, newest first, as a repository with one line of commits.
fn history() -> Vec<RawCommit> {
    vec![
        raw("b2", "fix: q"),
        raw("b1", "fix(core): p"),
        raw("a2", "fix: y"),
        raw("a1", "feat: x"),
        raw("r0", "feat: initial"),
    ]
}

/// What a walk from `to` gives where `from` and its ancestors are hidden.
fn between(to: &Rev, from: &Rev) -> Vec<Visited> {
    let all = history();
    let start = all.iter().position(|c| Some(c) == to.commit.as_ref()).unwrap();
    let end = match &from.commit {
        Some(stop) => all.iter().position(|c| c == stop).unwrap(),
        None => all.len(),
    };
    all[start..end].iter().map(|c| Visited { commit: c.clone(), changes_paths: true }).collect()
}

fn tags() -> Vec<TagRef> {
    vec![
        TagRef { name: "v1.0.0".into(), commit: raw("r0", "feat: initial") },
        TagRef { name: "v1.1.0".into(), commit: raw("a2", "fix: y") },
    ]
}

fn contexts(cmd: &ChangelogCommand, config: &Config) -> Vec<ContextBase> {
    let parser = CommitParser::builder().build();
    let head = history()[0].clone();
    let index = semver_tags(&cmd.prefix, &tags());
    let ancestors: Vec<String> = history().iter().map(|c| c.id()).collect();
    let last = find_last_version(&ancestors, cmd.ignore_prereleases, &index);
    let list = cmd.limit(index);
    let unreleased = Unreleased::new(cmd.unreleased.clone());
    cmd.plan(&head, &last, &list, &None)
        .iter()
        .map(|(to, from)| {
            let options = RevWalkOptions {
                from_rev: from.commit.iter().cloned().collect(),
                to_rev: to.commit.clone().unwrap(),
                first_parent: config.first_parent,
                no_merge_commits: !config.merges,
                no_revert_commits: false,
                paths: Vec::new(),
                parser: &parser,
            };
            let items = options.revwalk(&between(to, from));
            transform(config, cmd.include_hidden_sections, &unreleased, &cmd.prefix, to, from, &items).unwrap()
        })
        .collect()
}

fn shape(base: &ContextBase) -> (String, Vec<(String, Vec<String>)>) {
    (
        base.version.clone(),
        base.commit_groups
            .iter()
            .map(|g| (g.title.clone(), g.commits.iter().map(|c| c.subject.clone()).collect()))
            .collect(),
    )
}

#[test]
fn full_changelog_has_one_window_for_each_release() {
    let out = contexts(&command(), &Config::default());
    let shapes: Vec<_> = out.iter().map(shape).collect();
    let group = |title: &str, subjects: &[&str]| {
        (title.to_string(), subjects.iter().map(|s| s.to_string()).collect::<Vec<_>>())
    };
    assert_eq!(
        shapes,
        vec![
            ("Unreleased".to_string(), vec![group("Fixes", &["q", "p"])]),
            ("v1.1.0".to_string(), vec![group("Features", &["x"]), group("Fixes", &["y"])]),
            ("v1.0.0".to_string(), vec![group("Features", &["initial"])]),
        ]
    );
    assert_eq!(out[0].previous_tag, "v1.1.0");
    assert_eq!(out[0].current_tag, "");
    assert_eq!((out[1].previous_tag.as_str(), out[1].current_tag.as_str()), ("v1.0.0", "v1.1.0"));
    assert_eq!((out[2].previous_tag.as_str(), out[2].current_tag.as_str()), ("", "v1.0.0"));
    assert_eq!(out[0].date, Some(Date { year: 2023, month: 11, day: 14 }));
    assert!(out.iter().all(|c| !c.is_patch));
    let first = &out[0].commit_groups[0].commits[1];
    assert_eq!(first.scope, Some("core".to_string()));
    assert_eq!(first.hash, format!("{:0<40}", "b1"));
    assert_eq!(first.short_hash, "b100000");
}

#[test]
fn hidden_section_is_shown_only_when_asked() {
    let parser = CommitParser::builder().build();
    let options = RevWalkOptions {
        from_rev: Vec::new(),
        to_rev: raw("c0", "chore: update deps"),
        first_parent: false,
        no_merge_commits: true,
        no_revert_commits: false,
        paths: Vec::new(),
        parser: &parser,
    };
    let items = options.revwalk(&vec![Visited { commit: raw("c0", "chore: update deps"), changes_paths: false }]);
    let to = Rev { commit: Some(raw("c0", "chore: update deps")), version: None };
    let from = Rev { commit: None, version: None };
    let unreleased = Unreleased::new("Unreleased".into());
    let config = Config::default();
    let hidden = transform(&config, false, &unreleased, "v", &to, &from, &items).unwrap();
    assert!(hidden.commit_groups.is_empty());
    let shown = transform(&config, true, &unreleased, "v", &to, &from, &items).unwrap();
    assert_eq!(shape(&shown), ("Unreleased".to_string(), vec![("Other".to_string(), vec!["update deps".to_string()])]));
    assert_eq!(section_for(&config.types, false, &"chore".to_string()), None);
    assert_eq!(section_for(&config.types, true, &"chore".to_string()), Some("Other".to_string()));
    assert_eq!(section_for(&config.types, true, &"nothing".to_string()), None);
}

fn items_of(messages: &[&str]) -> Vec<Result<Commit<RawCommit>, (ParseError, RawCommit)>> {
    let parser = CommitParser::builder().build();
    let options = RevWalkOptions {
        from_rev: Vec::new(),
        to_rev: raw("t", "x"),
        first_parent: false,
        no_merge_commits: false,
        no_revert_commits: false,
        paths: Vec::new(),
        parser: &parser,
    };
    messages.iter().enumerate().map(|(i, m)| options.parse_commit(raw(&format!("e{}", i), m))).collect()
}

#[test]
fn window_is_named_after_its_version() {
    let config = Config::default();
    let to = |version: Option<&str>| Rev {
        commit: Some(raw("t", "x")),
        version: version.map(|v| SemVer::parse(v).unwrap()),
    };
    let from = Rev { commit: None, version: Some(SemVer::parse("0.9.0").unwrap()) };
    let run = |to: &Rev, unreleased: &str| {
        transform(&config, false, &Unreleased::new(unreleased.into()), "v", to, &from, &Vec::new()).unwrap()
    };
    let named = run(&to(Some("1.2.3")), "Unreleased");
    assert_eq!((named.version.as_str(), named.is_patch), ("v1.2.3", true));
    assert_eq!((named.current_tag.as_str(), named.previous_tag.as_str()), ("v1.2.3", "v0.9.0"));
    let forecast = run(&to(None), "2.0.0");
    assert_eq!((forecast.version.as_str(), forecast.is_patch), ("v2.0.0", false));
    assert_eq!(forecast.current_tag, "");
    let forecast = run(&to(None), "2.0.1");
    assert_eq!((forecast.version.as_str(), forecast.is_patch), ("v2.0.1", true));
    let plain = run(&to(None), "Next");
    assert_eq!((plain.version.as_str(), plain.is_patch), ("Next", false));
    assert!(plain.commit_groups.is_empty() && plain.note_groups.is_empty());
    assert_eq!((plain.link_compare, plain.link_references), (true, true));
}

#[test]
fn notes_are_taken_from_breaking_footers() {
    let mut config = Config::default();
    config.owner = Some("o".into());
    config.repository = Some("r".into());
    let items = items_of(&[
        "feat(api)!: a\n\nBREAKING CHANGE: one\nRefs: #4\nBREAKING-CHANGE: two",
        "not conventional",
        "fix: b #5\n\nBREAKING CHANGE: three",
    ]);
    let to = Rev { commit: Some(raw("t", "x")), version: None };
    let from = Rev { commit: None, version: None };
    let base = transform(&config, false, &Unreleased::new("U".into()), "v", &to, &from, &items).unwrap();
    let note = |scope: Option<&str>, text: &str| Note { scope: scope.map(str::to_string), text: text.into() };
    assert_eq!(
        base.note_groups,
        vec![NoteGroup {
            title: "BREAKING CHANGE".into(),
            notes: vec![note(Some("api"), "one"), note(Some("api"), "two"), note(None, "three")],
        }]
    );
    let fix = &base.commit_groups[1].commits[0];
    assert_eq!((fix.references[0].owner.as_str(), fix.references[0].repository.as_str()), ("o", "r"));
    assert_eq!((fix.references[0].prefix.as_str(), fix.references[0].issue.as_str()), ("#", "5"));
    let mut notes = vec![note(None, "kept")];
    let parser = CommitParser::builder().build();
    let commit = parser.parse("fix(s): x\n\nBREAKING CHANGE: n\nRefs: #1").unwrap();
    make_notes(&mut notes, &commit.footers, &commit.scope);
    assert_eq!(notes, vec![note(None, "kept"), note(Some("s"), "n")]);
}

#[test]
fn commit_that_cannot_be_dated_fails_the_window() {
    let config = Config::default();
    let mut late = raw("t", "feat: x");
    late.seconds = i64::MAX;
    let from = Rev { commit: None, version: None };
    let unreleased = Unreleased::new("U".into());
    let to = Rev { commit: Some(late.clone()), version: None };
    assert_eq!(transform(&config, false, &unreleased, "v", &to, &from, &Vec::new()), Err(TimeOutOfRange));
    let parser = CommitParser::builder().build();
    let item = match parser.parse("feat: x") {
        Ok(conventional_commit) => Ok(Commit { conventional_commit, commit: late }),
        Err(e) => Err((e, raw("t", "x"))),
    };
    let to = Rev { commit: Some(raw("t", "x")), version: None };
    assert_eq!(transform(&config, false, &unreleased, "v", &to, &from, &vec![item]), Err(TimeOutOfRange));
}

#[test]
fn groups_are_sorted_by_the_place_of_their_section() {
    let types = default_types();
    let group = |title: &str| CommitGroup { title: title.into(), commits: Vec::new() };
    let sorted = sort_commit_groups(
        vec![group("Else"), group("Other"), group("Fixes"), group("Documentation"), group("Unknown"), group("Features")],
        &types,
    );
    let titles: Vec<&str> = sorted.iter().map(|g| g.title.as_str()).collect();
    assert_eq!(titles, vec!["Features", "Fixes", "Other", "Documentation", "Else", "Unknown"]);
    assert_eq!(find_position(&types, &"Other".to_string()), 2);
    assert_eq!(find_position(&types, &"Unknown".to_string()), 10);
    let parser = CommitParser::builder().build();
    let commit = parser.parse("feat: x").unwrap();
    let date = Date { year: 2020, month: 1, day: 2 };
    let mut short = raw("abc", "feat: x");
    short.id = "abc".into();
    let entry = make_entry(&commit, &short, date, &Config::default());
    assert_eq!((entry.hash.as_str(), entry.short_hash.as_str(), entry.date), ("abc", "abc", date));
    let mut groups = vec![group("A"), group("B")];
    add_entry(&mut groups, "B".into(), make_entry(&commit, &short, date, &Config::default()));
    add_entry(&mut groups, "C".into(), entry);
    let sizes: Vec<(&str, usize)> = groups.iter().map(|g| (g.title.as_str(), g.commits.len())).collect();
    assert_eq!(sizes, vec![("A", 0), ("B", 1), ("C", 1)]);
}

#[test]
fn type_named_twice_goes_to_its_last_section() {
    let types = vec![
        Type { ty: "feat".into(), increment: Increment::Minor, section: "First".into(), hidden: false },
        Type { ty: "feat".into(), increment: Increment::Minor, section: "Second".into(), hidden: false },
        Type { ty: "feat".into(), increment: Increment::Minor, section: "Hidden".into(), hidden: true },
    ];
    assert_eq!(section_for(&types, false, &"feat".to_string()), Some("Second".to_string()));
    assert_eq!(section_for(&types, true, &"feat".to_string()), Some("Hidden".to_string()));
}

#[test]
fn flags_change_the_configuration() {
    let mut cmd = command();
    assert_eq!(cmd.configure(Config::default()), Config::default());
    cmd.no_links = true;
    cmd.merges = true;
    cmd.first_parent = true;
    cmd.line_length = Some(60);
    cmd.no_wrap = true;
    let changed = cmd.configure(Config::default());
    assert_eq!(
        (changed.link_references, changed.link_compare, changed.merges, changed.first_parent),
        (false, false, true, true)
    );
    assert_eq!((changed.line_length, changed.wrap_disabled), (60, true));
    assert_eq!(changed.types, Config::default().types);
}

#[test]
fn ends_and_windows() {
    let head = raw("b2", "fix: q");
    let index = semver_tags("v", &tags());
    let release = |i: usize| -> VersionAndTag { index[i].clone() };
    let ids = |pairs: &[(Rev, Rev)]| -> Vec<(String, String)> {
        let id = |r: &Rev| r.commit.as_ref().map(|c| c.id[..2].to_string()).unwrap_or_default();
        pairs.iter().map(|(a, b)| (id(a), id(b))).collect()
    };
    let pair = |a: &str, b: &str| (a.to_string(), b.to_string());
    let cmd = command();
    let plan = cmd.plan(&head, &Some(release(0)), &index, &None);
    assert_eq!(ids(&plan), vec![pair("b2", "a2"), pair("a2", "r0"), pair("r0", "")]);
    assert!(plan[0].0.version.is_none() && plan[1].0.version == Some(SemVer::new(1, 1, 0)));
    let stop = Some(raw("a1", "feat: x"));
    assert_eq!(
        ids(&cmd.plan(&head, &Some(release(0)), &index, &stop)),
        vec![pair("b2", "a2"), pair("a2", "r0"), pair("r0", "a1")]
    );
    let at_stop = Some(raw("r0", "feat: initial"));
    assert_eq!(
        ids(&cmd.plan(&head, &Some(release(0)), &index, &at_stop)),
        vec![pair("b2", "a2"), pair("a2", "r0")]
    );
    let at_tag = raw("a2", "fix: y");
    assert_eq!(
        ids(&cmd.plan(&at_tag, &Some(release(0)), &index, &None)),
        vec![pair("a2", "r0"), pair("r0", "")]
    );
    assert!(cmd.plan(&head, &Some(release(0)), &Vec::new(), &None).is_empty());
    assert_eq!(ids(&cmd.plan(&head, &None, &index, &None)), vec![pair("b2", "")]);
    let mut named = command();
    named.rev = "vv3.0.0".into();
    let end = named.newest(&head, &release(0));
    assert_eq!((end.commit, end.version), (Some(head.clone()), Some(SemVer::new(3, 0, 0))));
    let mut limited = command();
    limited.max_minors = 1;
    assert_eq!(limited.limit(semver_tags("v", &tags())).len(), 1);
    assert!(windows(&Vec::new()).is_empty());
    assert!(windows(&vec![Rev { commit: None, version: None }]).is_empty());
    let c = |s: &str| -> Vec<char> { s.chars().collect() };
    assert_eq!(strip_prefix(&c("vvv1"), &c("v")), c("1"));
    assert_eq!(strip_prefix(&c("v1"), &c("")), c("v1"));
    assert_eq!(strip_prefix(&c("abab"), &c("ab")), c(""));
}

#[test]
fn references_pattern_names_each_prefix() {
    assert_eq!(references_pattern(&vec!["#".to_string()]), "(#)([0-9]+)");
    assert_eq!(references_pattern(&vec!["#".to_string(), "GH-".to_string()]), "(#|GH-)([0-9]+)");
    assert_eq!(references_pattern(&Vec::new()), "()([0-9]+)");
}

#[test]
fn context_and_writer() {
    let config = Config::default();
    let builder = ContextBuilder::new(&config);
    assert_eq!(builder.user_url_format, "{{host}}/{{user}}");
    let base = |current: &str, previous: &str, link: bool| ContextBase {
        version: "v".into(),
        date: None,
        is_patch: false,
        commit_groups: Vec::new(),
        note_groups: Vec::new(),
        previous_tag: previous.into(),
        current_tag: current.into(),
        host: None,
        owner: None,
        repository: None,
        link_compare: link,
        link_references: true,
    };
    let rendered = || Rendered {
        compare_url_format: "c".into(),
        release_commit_message_format: "m".into(),
        user_url_format: "u".into(),
    };
    let context: Context = builder.build(base("v2", "v1", true), rendered());
    assert!(context.link_compare);
    assert_eq!(
        (context.compare_url_format.as_str(), context.release_commit_message_format.as_str(), context.user_url_format.as_str()),
        ("c", "m", "u")
    );
    assert!(!builder.build(base("", "v1", true), rendered()).link_compare);
    assert!(!builder.build(base("v2", "", true), rendered()).link_compare);
    assert!(!builder.build(base("v2", "v1", false), rendered()).link_compare);
    assert!(writes_window(false, &context));
    assert!(!writes_window(true, &context));
    let mut writer = ChangelogWriter::new();
    writer.write_header("# Changelog\n");
    writer.write_template("## v1\n");
    writer.write_header("");
    assert_eq!(writer.writer, "# Changelog\n## v1\n");
}
