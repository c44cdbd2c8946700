use convco::bump::{find_bump_version, increment_for, scan_commit, scan_items, Label, Scan, VersionCommand, VersionPlan};
use convco::commits::{CommitParser, ParseError};
use convco::config::{default_types, Increment, Type};
use convco::git::{Commit, CommitIter, Date, RawCommit, RevWalkOptions, TimeOutOfRange, Visited};
use convco::releases::{
    find_last_version, semver_tags, take_max, versions_from, Component, TagRef, VersionAndTag,
};
use convco::versions::SemVer;
use semver::Prerelease;

fn raw(id: &str, message: &str) -> RawCommit {
    RawCommit {
        id: format!("{:0<40}", id),
        short_id: format!("{:0<7}", id),
        message: message.to_string(),
        parents: 1,
        seconds: 1_700_000_000,
        offset_seconds: 3600,
    }
}

fn options<'a>(parser: &'a CommitParser) -> RevWalkOptions<'a, RawCommit> {
    RevWalkOptions {
        from_rev: Vec::new(),
        to_rev: raw("f", "x"),
        first_parent: false,
        no_merge_commits: false,
        no_revert_commits: false,
        paths: Vec::new(),
        parser,
    }
}

fn walk(messages: &[&str]) -> Vec<Result<Commit<RawCommit>, (ParseError, RawCommit)>> {
    let parser = CommitParser::builder().build();
    let history: Vec<Visited> = messages
        .iter()
        .enumerate()
        .map(|(i, m)| Visited { commit: raw(&format!("c{}", i), m), changes_paths: true })
        .collect();
    options(&parser).revwalk(&history)
}

fn v(text: &str) -> SemVer {
    SemVer::parse(text).unwrap()
}

fn no_suffix() -> Prerelease {
    Prerelease::EMPTY
}

#[test]
fn walk_filters_then_parses() {
    let parser = CommitParser::builder().build();
    let mut merge = raw("a1", "feat: merged");
    merge.parents = 2;
    let history = vec![
        Visited { commit: raw("a0", "feat: one"), changes_paths: true },
        Visited { commit: merge, changes_paths: true },
        Visited { commit: raw("a2", "Revert \"feat: one\""), changes_paths: true },
        Visited { commit: raw("a3", "fix: not here"), changes_paths: false },
        Visited { commit: raw("a4", "no conventional commit"), changes_paths: true },
    ];
    let ids = |o: &RevWalkOptions<RawCommit>| -> Vec<String> {
        o.revwalk(&history)
            .iter()
            .map(|i| match i {
                Ok(c) => format!("ok {}", c.commit.short_id()),
                Err((e, c)) => format!("{} {}", e.to_string(), &c.id()[..2]),
            })
            .collect()
    };
    let all = options(&parser);
    assert_eq!(
        ids(&all),
        vec![
            "ok a000000",
            "ok a100000",
            "first line doesn't match `<type>[optional scope]: <description>` a2",
            "ok a300000",
            "first line doesn't match `<type>[optional scope]: <description>` a4",
        ]
    );
    let mut strict = options(&parser);
    strict.no_merge_commits = true;
    strict.no_revert_commits = true;
    strict.paths = vec!["src".to_string()];
    assert_eq!(
        ids(&strict),
        vec!["ok a000000", "first line doesn't match `<type>[optional scope]: <description>` a4"]
    );
    assert!(strict.wants_changes());
    assert!(!all.wants_changes());
    assert!(strict.passes_merge_filter(1));
    assert!(!strict.passes_merge_filter(2));
    assert!(all.passes_merge_filter(5));
    assert!(!strict.passes_revert_filter("Revert \"x\""));
    assert!(strict.passes_revert_filter("revert: x"));
    assert!(all.retains(3, false, "Revert \"x\""));
    assert!(!strict.retains(1, false, "feat: x"));
}

#[test]
fn commit_is_dated_by_the_clock_of_its_author() {
    let mut c = raw("d", "x");
    c.seconds = 1_700_000_000;
    c.offset_seconds = 0;
    assert_eq!(c.commit_date(), Ok(Date { year: 2023, month: 11, day: 14 }));
    c.offset_seconds = 2 * 3600;
    assert_eq!(c.commit_date(), Ok(Date { year: 2023, month: 11, day: 15 }));
    c.seconds = 0;
    c.offset_seconds = -1;
    assert_eq!(c.commit_date(), Ok(Date { year: 1969, month: 12, day: 31 }));
    c.offset_seconds = 100_000;
    assert_eq!(c.commit_date(), Err(TimeOutOfRange));
    c.offset_seconds = 0;
    c.seconds = i64::MAX;
    assert_eq!(c.commit_date(), Err(TimeOutOfRange));
    assert_eq!(c.commit_message(), "x");
    assert_eq!(c.clone(), c);
}

#[test]
fn iterator_hands_out_in_order() {
    let parser = CommitParser::builder().build();
    let item = |m: &str| match parser.parse(m) {
        Ok(conventional_commit) => Ok(Commit { conventional_commit, commit: m.len() }),
        Err(e) => Err(e),
    };
    let mut iter = CommitIter::new(vec![item("feat: a"), item("bad"), item("fix: b")]);
    assert_eq!(iter.next().unwrap().unwrap().commit, 7);
    assert_eq!(iter.next().unwrap().unwrap_err(), ParseError::InvalidFirstLine);
    assert_eq!(iter.next().unwrap().unwrap().conventional_commit.ty, "fix");
    assert!(iter.next().is_none());
    assert!(iter.next().is_none());
}

#[test]
fn bump_without_qualifying_commits_is_a_release() {
    let types = default_types();
    for messages in [&[][..], &["chore: x", "docs: y", "unknown: z", "not conventional"][..]] {
        let (version, label, _) = find_bump_version(v("1.2.3"), &walk(messages), &types, &no_suffix());
        assert_eq!((version, label), (v("1.2.3"), Label::Release));
    }
    let cmd = command(true);
    let last = release("v1.2.3-rc.2+b", raw("r", "x"));
    match cmd.get_version(Some(last), v("0.1.0"), "head".into()) {
        VersionPlan::Known(version, label, sha) => {
            assert_eq!((version, label, sha.as_str()), (v("1.2.3"), Label::Release, "r000000"))
        }
        VersionPlan::FromHistory(_) => panic!("a pre-release is bumped without its history"),
    }
}

#[test]
fn breaking_change_bumps_minor_below_one_and_major_above() {
    let types = default_types();
    let messages = ["fix: a", "feat!: b", "feat: c"];
    let (version, label, sha) = find_bump_version(v("0.3.1"), &walk(&messages), &types, &no_suffix());
    assert_eq!((version, label, sha.as_str()), (v("0.4.0"), Label::Minor, "c000000"));
    let (version, label, _) = find_bump_version(v("1.3.1"), &walk(&messages), &types, &no_suffix());
    assert_eq!((version, label), (v("2.0.0"), Label::Major));
    let footer = ["fix: a\n\nBREAKING CHANGE: it"];
    let (version, label, _) = find_bump_version(v("0.3.1"), &walk(&footer), &types, &no_suffix());
    assert_eq!((version, label), (v("0.4.0"), Label::Minor));
    let (version, label, _) = find_bump_version(v("3.3.1"), &walk(&footer), &types, &no_suffix());
    assert_eq!((version, label), (v("4.0.0"), Label::Major));
}

#[test]
fn increments_of_the_types_decide() {
    let types = default_types();
    let bump = |last: &str, messages: &[&str]| {
        let (version, label, _) = find_bump_version(v(last), &walk(messages), &types, &no_suffix());
        (version.to_string(), label)
    };
    assert_eq!(bump("1.2.3", &["fix: a"]), ("1.2.4".to_string(), Label::Patch));
    assert_eq!(bump("1.2.3", &["fix: a", "feat: b"]), ("1.3.0".to_string(), Label::Minor));
    assert_eq!(bump("0.2.3", &["fix: a", "feat: b"]), ("0.2.4".to_string(), Label::Patch));
    assert_eq!(bump("0.2.3", &["feat: b"]), ("0.2.4".to_string(), Label::Patch));
    let mut custom = default_types();
    custom.push(Type { ty: "epic".into(), increment: Increment::Major, section: "E".into(), hidden: false });
    custom.push(Type { ty: "feat".into(), increment: Increment::Nothing, section: "F".into(), hidden: false });
    let (version, label, _) = find_bump_version(v("0.2.3"), &walk(&["epic: a"]), &custom, &no_suffix());
    assert_eq!((version, label), (v("1.0.0"), Label::Major));
    assert_eq!(increment_for(&custom, &"feat".to_string()), Increment::Minor);
    assert_eq!(increment_for(&custom, &"none".to_string()), Increment::Nothing);
    let rc = Prerelease::new("rc").unwrap();
    let (version, label, _) = find_bump_version(v("1.2.3"), &walk(&["feat: b"]), &types, &rc);
    assert_eq!((version, label), (v("1.3.0-rc.1"), Label::Minor));
    let (version, label, sha) = find_bump_version(v("1.2.3"), &walk(&["bad"]), &types, &rc);
    assert_eq!((version, label, sha.as_str()), (v("1.2.3-rc.1"), Label::Release, ""));
}

#[test]
fn scan_stops_at_a_breaking_change() {
    let types = default_types();
    let (scan, sha) = scan_items(&walk(&["bad", "fix: a", "fix!: b", "feat: c"]), &types, false);
    assert_eq!(scan, Scan { major: true, minor: false, patch: true, done: true });
    assert_eq!(sha, "c100000");
    assert_eq!(scan.resolve(), Label::Major);
    let parser = CommitParser::builder().build();
    let feat = parser.parse("feat: c").unwrap();
    assert_eq!(scan_commit(scan, &feat, &types, false), scan);
    let start = Scan { major: false, minor: false, patch: false, done: false };
    assert_eq!(scan_commit(start, &feat, &types, true).resolve(), Label::Patch);
    assert_eq!(start.resolve(), Label::Release);
}

fn command(bump: bool) -> VersionCommand {
    VersionCommand {
        prefix: "v".into(),
        print_prefix: false,
        rev: "HEAD".into(),
        bump,
        label: false,
        major: false,
        minor: false,
        patch: false,
        prerelease: Prerelease::EMPTY,
        paths: Vec::new(),
        commit_sha: false,
        ignore_prereleases: false,
        initial_bump_version: None,
    }
}

fn release(tag: &str, commit: RawCommit) -> VersionAndTag {
    VersionAndTag { tag: tag.to_string(), version: v(&tag[1..]), commit }
}

fn known(plan: VersionPlan) -> (String, Label, String) {
    match plan {
        VersionPlan::Known(version, label, sha) => (version.to_string(), label, sha),
        VersionPlan::FromHistory(_) => panic!("the history decides"),
    }
}

#[test]
fn version_without_a_release() {
    let plan = |cmd: &VersionCommand, initial: &str| known(cmd.get_version(None, v(initial), "abc".into()));
    let mut cmd = command(true);
    assert_eq!(plan(&cmd, "0.1.0"), ("0.1.0".into(), Label::Minor, "abc".into()));
    assert_eq!(plan(&cmd, "1.0.0"), ("1.0.0".into(), Label::Major, "abc".into()));
    assert_eq!(plan(&cmd, "0.0.1"), ("0.0.1".into(), Label::Patch, "abc".into()));
    cmd.prerelease = Prerelease::new("rc").unwrap();
    assert_eq!(plan(&cmd, "0.1.0"), ("0.1.0-rc.1".into(), Label::Prerelease, "abc".into()));
    let mut cmd = command(false);
    assert_eq!(plan(&cmd, "0.1.0"), ("0.0.0".into(), Label::Patch, "abc".into()));
    cmd.major = true;
    assert_eq!(plan(&cmd, "0.1.0"), ("1.0.0".into(), Label::Major, "abc".into()));
    cmd.minor = true;
    assert_eq!(plan(&cmd, "0.1.0"), ("0.1.0".into(), Label::Minor, "abc".into()));
    cmd.patch = true;
    assert_eq!(plan(&cmd, "0.1.0"), ("0.0.1".into(), Label::Patch, "abc".into()));
}

#[test]
fn version_after_a_release() {
    let last = || Some(release("v1.2.3", raw("r", "x")));
    let plan = |cmd: &VersionCommand| known(cmd.get_version(last(), v("0.1.0"), "abc".into()));
    let mut cmd = command(false);
    assert_eq!(plan(&cmd), ("1.2.3".into(), Label::Release, "r000000".into()));
    cmd.patch = true;
    assert_eq!(plan(&cmd), ("1.2.4".into(), Label::Patch, "r000000".into()));
    cmd.minor = true;
    assert_eq!(plan(&cmd), ("1.3.0".into(), Label::Minor, "r000000".into()));
    cmd.major = true;
    assert_eq!(plan(&cmd), ("2.0.0".into(), Label::Major, "r000000".into()));
    let cmd = command(true);
    match cmd.get_version(last(), v("0.1.0"), "abc".into()) {
        VersionPlan::FromHistory(from) => assert_eq!(from.tag, "v1.2.3"),
        VersionPlan::Known(..) => panic!("the flags do not decide"),
    }
    let mut cmd = command(true);
    cmd.prerelease = Prerelease::new("rc").unwrap();
    let pre = Some(release("v1.2.3-rc.4", raw("r", "x")));
    assert_eq!(
        known(cmd.get_version(pre, v("0.1.0"), "abc".into())),
        ("1.2.3-rc.5".into(), Label::Prerelease, "r000000".into())
    );
}

#[test]
fn version_is_printed_as_asked() {
    let mut cmd = command(true);
    let version = v("1.2.3");
    let sha = "abc".to_string();
    assert_eq!(cmd.output(&version, Label::Minor, &sha), "1.2.3");
    cmd.print_prefix = true;
    assert_eq!(cmd.output(&version, Label::Minor, &sha), "v1.2.3");
    cmd.commit_sha = true;
    assert_eq!(cmd.output(&version, Label::Minor, &sha), "abc");
    cmd.label = true;
    assert_eq!(cmd.output(&version, Label::Minor, &sha), "minor");
    for (label, text) in [
        (Label::Major, "major"),
        (Label::Minor, "minor"),
        (Label::Patch, "patch"),
        (Label::Release, "release"),
        (Label::Prerelease, "prerelease"),
    ] {
        assert_eq!(label.to_string(), text);
    }
}

fn tag(name: &str, id: &str) -> TagRef {
    TagRef { name: name.to_string(), commit: raw(id, "x") }
}

fn names(list: &[VersionAndTag]) -> Vec<&str> {
    list.iter().map(|r| r.tag.as_str()).collect()
}

fn index() -> Vec<VersionAndTag> {
    semver_tags(
        "v",
        &vec![
            tag("v1.0.0", "a"),
            tag("v0.9.0", "b"),
            tag("v1.1.0-rc.1", "c"),
            tag("nightly", "d"),
            tag("v1.1.0", "e"),
            tag("vnext", "f"),
            tag("v1.0.0+again", "g"),
            tag("v0.10.0", "h"),
            tag("v2.0.0-alpha", "i"),
            tag("x1.5.0", "j"),
        ],
    )
}

#[test]
fn tags_are_indexed_from_the_newest_version() {
    assert_eq!(
        names(&index()),
        vec!["v2.0.0-alpha", "v1.1.0", "v1.1.0-rc.1", "v1.0.0", "v1.0.0+again", "v0.10.0", "v0.9.0"]
    );
    assert!(semver_tags("release-", &vec![tag("v1.0.0", "a")]).is_empty());
    assert_eq!(names(&semver_tags("", &vec![tag("1.0.0", "a"), tag("v1.0.0", "b")])), vec!["1.0.0"]);
}

#[test]
fn last_version_is_the_greatest_among_the_ancestors() {
    let all = index();
    let ids = |short: &[&str]| -> Vec<String> { short.iter().map(|s| format!("{:0<40}", s)).collect() };
    let last = |short: &[&str], ignore: bool| find_last_version(&ids(short), ignore, &all).map(|r| r.tag);
    assert_eq!(last(&["z", "b", "a", "c"], false), Some("v1.1.0-rc.1".to_string()));
    assert_eq!(last(&["z", "b", "a", "c"], true), Some("v1.0.0".to_string()));
    assert_eq!(last(&["i", "e", "a"], false), Some("v2.0.0-alpha".to_string()));
    assert_eq!(last(&["i", "e", "a"], true), Some("v1.1.0".to_string()));
    assert_eq!(last(&["g", "a"], true), Some("v1.0.0".to_string()));
    assert_eq!(last(&["z", "d", "j"], false), None);
    assert_eq!(last(&["c"], true), None);
    assert_eq!(last(&[], false), None);
}

#[test]
fn versions_before_a_release_rise_without_prereleases() {
    let all = index();
    assert_eq!(names(&versions_from(&v("1.1.0"), &all)), vec!["v0.9.0", "v0.10.0", "v1.0.0"]);
    assert_eq!(
        names(&versions_from(&v("2.0.0-alpha"), &all)),
        vec!["v0.9.0", "v0.10.0", "v1.0.0", "v1.1.0"]
    );
    assert_eq!(names(&versions_from(&v("1.1.0-rc.1"), &all)), vec!["v0.9.0", "v0.10.0", "v1.0.0"]);
    assert!(versions_from(&v("0.9.0"), &all).is_empty());
    let mut shuffled = index();
    shuffled.reverse();
    assert_eq!(
        names(&versions_from(&v("9.0.0"), &shuffled)),
        vec!["v0.9.0", "v0.10.0", "v1.0.0+again", "v1.1.0"]
    );
    let before = versions_from(&v("9.0.0"), &all);
    for pair in before.windows(2) {
        assert!(pair[0].version.precedes(&pair[1].version));
    }
    assert!(before.iter().all(|r| !r.version.is_prerelease() && r.version.precedes(&v("9.0.0"))));
}

#[test]
fn limits_cut_the_list_of_releases() {
    let list: Vec<VersionAndTag> = ["v3.0.0", "v2.1.1", "v2.1.0", "v2.0.0", "v1.0.1", "v1.0.0"]
        .iter()
        .map(|t| release(t, raw(t, "x")))
        .collect();
    assert_eq!(names(&take_max(&list, Component::Major, 1)), vec!["v3.0.0"]);
    assert_eq!(names(&take_max(&list, Component::Major, 2)), vec!["v3.0.0", "v2.1.1", "v2.1.0", "v2.0.0"]);
    assert_eq!(names(&take_max(&list, Component::Major, 9)).len(), 6);
    assert_eq!(names(&take_max(&list, Component::Minor, 2)), vec!["v3.0.0", "v2.1.1", "v2.1.0"]);
    assert_eq!(names(&take_max(&list, Component::Patch, 2)), vec!["v3.0.0", "v2.1.1"]);
    assert!(take_max(&Vec::new(), Component::Patch, 2).is_empty());
    assert_eq!(Component::Minor.read(&v("1.2.3")), 2);
}
