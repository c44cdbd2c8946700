use convco::commits::{
    assemble_commit, Commit, CommitParser, CommitParserBuilder, Footer, FooterKey, InvalidPattern,
    LineScan, ParseError, Reference,
};
use convco::grammar::{parse_first_line, parse_footer_line, token_upto, FirstLine};
use convco::pattern::GroupPair;

fn c(s: &str) -> Vec<char> {
    s.chars().collect()
}

fn first(s: &str) -> Option<FirstLine> {
    parse_first_line(&c(s))
}

fn footer(s: &str) -> Option<(String, String)> {
    parse_footer_line(&c(s)).map(|(k, v)| (k.iter().collect(), v.iter().collect()))
}

#[test]
fn first_line_grammar() {
    assert_eq!(
        first("feat(api)!: drop it"),
        Some(FirstLine {
            ty: "feat".into(),
            scope: Some("api".into()),
            breaking: true,
            description: "drop it".into(),
        })
    );
    assert_eq!(
        first("Fix: x"),
        Some(FirstLine { ty: "Fix".into(), scope: None, breaking: false, description: "x".into() })
    );
    assert_eq!(first("feat(a b): x").unwrap().scope, Some("a b".to_string()));
    assert_eq!(first("feat: : x").unwrap().description, ": x");
    for bad in [
        "", "feat", "feat:", "feat: ", "feat:x", ": x", "feat1: x", "feat (a): x", "feat(): x",
        "feat(a: x", "feat(a(b)): x", "feat(a)(b): x", "feat!!: x", "feat!(a): x", "feat: a\rb",
        "feat: a\nb", "feat(a\rb): x", " feat: x", "f\u{e9}at: x",
    ] {
        assert_eq!(first(bad), None, "{:?}", bad);
    }
}

#[test]
fn footer_line_grammar() {
    assert_eq!(footer("Reviewed-by: Z"), Some(("Reviewed-by".into(), "Z".into())));
    assert_eq!(footer("Refs #133"), Some(("Refs".into(), "133".into())));
    assert_eq!(footer("BREAKING CHANGE: it"), Some(("BREAKING CHANGE".into(), "it".into())));
    assert_eq!(footer("BREAKING-CHANGE: it"), Some(("BREAKING-CHANGE".into(), "it".into())));
    assert_eq!(footer("a-b-c:  x"), Some(("a-b-c".into(), " x".into())));
    assert_eq!(footer("Closes: #2, #42"), Some(("Closes".into(), "#2, #42".into())));
    assert_eq!(footer("Fixes #1: and #2"), Some(("Fixes".into(), "1: and #2".into())));
    for bad in [
        "", "a", "a:", "a: ", "a:b", "a #", "a#1", "a--b: x", "-a: x", "a-: x", "a b: x",
        "BREAKING CHANGE #1", "breaking change: x", "a1: x", "see the issue for details", ": x",
        " a: x",
    ] {
        assert_eq!(footer(bad), None, "{:?}", bad);
    }
    assert!(token_upto(&c("Signed-off-by: x"), 13));
    assert!(!token_upto(&c("Signed-off-by: x"), 14));
    assert!(!token_upto(&c("x"), 0));
}

#[test]
fn key_of_a_footer() {
    assert_eq!(FooterKey::from("BREAKING CHANGE"), FooterKey::BreakingChange);
    assert_eq!(FooterKey::from("BREAKING-CHANGE"), FooterKey::BreakingChange);
    assert_eq!(FooterKey::from("Breaking-Change"), FooterKey::String("Breaking-Change".into()));
    assert_eq!(FooterKey::BreakingChange.to_string(), "BREAKING CHANGE");
    assert_eq!(FooterKey::from("Refs").to_string(), "Refs");
    assert!(FooterKey::from_chars(&c("BREAKING-CHANGE")).is_breaking_change());
    assert!(!FooterKey::from_chars(&c("Refs")).is_breaking_change());
}

fn pair(a: Option<&str>, b: Option<&str>) -> GroupPair {
    GroupPair { first: a.map(str::to_string), second: b.map(str::to_string) }
}

#[test]
fn commit_is_assembled_from_scanned_lines() {
    let first = FirstLine {
        ty: "fix".into(),
        scope: Some("x".into()),
        breaking: false,
        description: "d #1".into(),
    };
    let scans = vec![
        LineScan { line: "".into(), groups: vec![] },
        LineScan { line: " body #7 ".into(), groups: vec![pair(Some("#"), Some("7"))] },
        LineScan { line: "".into(), groups: vec![] },
        LineScan { line: "Refs: #2".into(), groups: vec![pair(Some("#"), Some("2"))] },
        LineScan { line: "and more #3".into(), groups: vec![pair(Some("#"), Some("3")), pair(None, Some("9"))] },
        LineScan { line: "BREAKING CHANGE: all".into(), groups: vec![pair(Some("#"), None)] },
        LineScan { line: "".into(), groups: vec![] },
    ];
    let commit = assemble_commit(first, &vec![pair(Some("#"), Some("1"))], &scans);
    let reference = |action: Option<&str>, issue: &str| Reference {
        action: action.map(str::to_string),
        prefix: "#".into(),
        issue: issue.into(),
    };
    assert_eq!(
        commit,
        Commit {
            ty: "fix".into(),
            scope: Some("x".into()),
            breaking: false,
            description: "d #1".into(),
            body: Some("body #7".into()),
            footers: vec![
                Footer { key: FooterKey::String("Refs".into()), value: "#2\nand more #3".into() },
                Footer { key: FooterKey::BreakingChange, value: "all\n".into() },
            ],
            references: vec![
                reference(None, "1"),
                reference(None, "7"),
                reference(Some("Refs"), "2"),
                reference(Some("Refs"), "3"),
            ],
        }
    );
    assert!(commit.is_breaking());
    assert_eq!(commit.to_string(), "fix");
}

#[test]
fn each_error_has_its_input_and_its_words() {
    let parser = CommitParser::builder().build();
    assert_eq!(parser.parse(""), Err(ParseError::EmptyCommitMessage));
    assert_eq!(parser.parse("\nfeat: x"), Err(ParseError::InvalidFirstLine));
    assert_eq!(parser.parse("no colon"), Err(ParseError::InvalidFirstLine));
    assert_eq!(
        parser.parse("feat(a b): x"),
        Err(ParseError::InvalidScope("^[[:alnum:]]+(?:[-_/][[:alnum:]]+)*$".into()))
    );
    assert_eq!(ParseError::NoType.to_string(), "missing type");
    assert_eq!(ParseError::NoDescription.to_string(), "missing description");
    assert_eq!(ParseError::EmptyCommitMessage.to_string(), "empty commit message");
    assert_eq!(
        ParseError::InvalidFirstLine.to_string(),
        "first line doesn't match `<type>[optional scope]: <description>`"
    );
}

#[test]
fn patterns_of_the_builder_are_used() {
    let parser = CommitParserBuilder::new()
        .scope_regex("^(api|cli)$".to_string())
        .references_regex("(GH-|#)([0-9]+)".to_string())
        .strip_regex("^\\[skip ci\\] ".to_string())
        .build();
    let commit = parser.parse("[skip ci] fix(api): close GH-12 and #3\r\n\r\nbody\r\n").unwrap();
    assert_eq!(commit.description, "close GH-12 and #3");
    assert_eq!(commit.body, Some("body".to_string()));
    assert_eq!(
        commit.references,
        vec![
            Reference { action: None, prefix: "GH-".into(), issue: "12".into() },
            Reference { action: None, prefix: "#".into(), issue: "3".into() },
        ]
    );
    assert_eq!(
        parser.parse("fix(web): x"),
        Err(ParseError::InvalidScope("^(api|cli)$".into()))
    );
    let loose = CommitParserBuilder::new().references_regex("#([0-9]+)".to_string()).build();
    assert_eq!(loose.parse("fix: x #1").unwrap().references, vec![]);
}

#[test]
fn builder_tells_which_pattern_does_not_compile() {
    assert!(CommitParserBuilder::new().try_build().is_ok());
    let bad = |b: CommitParserBuilder| b.try_build().err();
    assert_eq!(bad(CommitParserBuilder::new().scope_regex("(".into())), Some(InvalidPattern::Scope));
    assert_eq!(
        bad(CommitParserBuilder::new().references_regex("[".into())),
        Some(InvalidPattern::References)
    );
    assert_eq!(bad(CommitParserBuilder::new().strip_regex("(?P<".into())), Some(InvalidPattern::Strip));
    assert_eq!(
        bad(CommitParserBuilder::new().scope_regex("(".into()).strip_regex("(".into())),
        Some(InvalidPattern::Scope)
    );
}

#[test]
fn marked_first_line_is_breaking_with_its_scope() {
    let parser = CommitParser::builder().build();
    for (ty, scope, desc) in [("feat", "api", "x"), ("Fix", "a/b-c_d", "drop: it!"), ("z", "9", " ")] {
        let commit = parser.parse(&format!("{}({})!: {}", ty, scope, desc)).unwrap();
        assert!(commit.breaking);
        assert!(commit.is_breaking());
        assert_eq!(commit.scope, Some(scope.to_string()));
        assert_eq!(commit.ty, ty);
        assert_eq!(commit.description, desc);
    }
}

#[test]
fn footer_value_goes_on_until_the_next_footer() {
    let parser = CommitParser::builder().build();
    let commit = parser
        .parse("fix: x\n\nbody\n\nRefs: one\ntwo\n\nthree\nReviewed-by: Z\nfour")
        .unwrap();
    assert_eq!(commit.body, Some("body".to_string()));
    assert_eq!(
        commit.footers,
        vec![
            Footer { key: FooterKey::String("Refs".into()), value: "one\ntwo\n\nthree".into() },
            Footer { key: FooterKey::String("Reviewed-by".into()), value: "Z\nfour".into() },
        ]
    );
}
