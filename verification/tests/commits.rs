use convco::commits::{Commit, CommitParser, Footer, FooterKey, Reference};

fn parser() -> CommitParser {
    CommitParser::builder().build()
}

#[test]
fn test_simple() {
    let msg = "docs: correct spelling of CHANGELOG";
    let commit: Commit = parser().parse(msg).expect("valid");
    assert_eq!(
        commit,
        Commit {
            ty: "docs".into(),
            scope: None,
            breaking: false,
            description: "correct spelling of CHANGELOG".into(),
            body: None,
            footers: Vec::new(),
            references: Vec::new(),
        }
    );
    assert!(!commit.is_breaking());
}

#[test]
fn test_with_scope() {
    let msg = "feat(lang): add polish language";
    let commit: Commit = parser().parse(msg).expect("valid");
    assert_eq!(
        commit,
        Commit {
            ty: "feat".into(),
            scope: Some("lang".into()),
            breaking: false,
            description: "add polish language".into(),
            body: None,
            footers: Vec::new(),
            references: Vec::new(),
        }
    );
    assert!(!commit.is_breaking());
}

#[test]
fn test_with_complex_scope() {
    let msg = "feat(bar2/a_b-C4): add a foo to new bar";
    let commit: Commit = parser().parse(msg).expect("valid");
    assert_eq!(
        commit,
        Commit {
            ty: "feat".into(),
            scope: Some("bar2/a_b-C4".into()),
            breaking: false,
            description: "add a foo to new bar".into(),
            body: None,
            footers: Vec::new(),
            references: Vec::new(),
        }
    );
    assert!(!commit.is_breaking());
}

#[test]
fn test_with_invalid_scope() {
    let msg = "feat(invalid scope): add a foo to new bar";
    let err = parser().parse(msg).expect_err("space not allowed");
    assert_eq!(
        err.to_string(),
        "scope does not match regex: ^[[:alnum:]]+(?:[-_/][[:alnum:]]+)*$"
    );
}

#[test]
fn test_with_breaking() {
    let msg = "refactor!: drop support for Node 6";
    let commit: Commit = parser().parse(msg).expect("valid");
    assert_eq!(
        commit,
        Commit {
            ty: "refactor".into(),
            scope: None,
            breaking: true,
            description: "drop support for Node 6".into(),
            body: None,
            footers: Vec::new(),
            references: Vec::new(),
        }
    );
    assert!(commit.is_breaking());
}

#[test]
fn test_with_breaking_footer() {
    let msg = "feat: allow provided config object to extend other configs\n\
                     \n\
                     BREAKING CHANGE: `extends` key in config file is now used for extending other config files";
    let commit: Commit = parser().parse(msg).expect("valid");
    assert_eq!(
        commit,
        Commit {
            ty: "feat".into(),
            scope: None,
            breaking: false,
            description: "allow provided config object to extend other configs".into(),
            body: None,
            footers: vec![Footer {
                key: FooterKey::BreakingChange,
                value:
                    "`extends` key in config file is now used for extending other config files"
                        .to_string()
            }],
            references: Vec::new(),
        }
    );
    assert!(commit.is_breaking());
}

#[test]
fn test_with_breaking_footer_alias() {
    let msg = "feat: allow provided config object to extend other configs\n\
                     \n\
                     BREAKING-CHANGE: `extends` key in config file is now used for extending other config files";
    let commit: Commit = parser().parse(msg).expect("valid");
    assert!(commit.is_breaking());
}

#[test]
fn test_with_breaking_footer_newline() {
    let msg = "feat: allow provided config object to extend other configs\n\
                     \n\
                     BREAKING-CHANGE: `extends` key in config\nfile is now used for extending other config files";
    let commit: Commit = parser().parse(msg).expect("valid");
    assert!(commit.is_breaking());
    assert_eq!(
        commit.footers.first().unwrap().value,
        "`extends` key in config\nfile is now used for extending other config files"
    )
}

#[test]
fn test_with_multi_body_and_footer() {
    let msg = "fix: correct minor typos in code\n\
               \n\
               see the issue for details\n\
               \n\
               on typos fixed.\n\
               \n\
               Reviewed-by: Z\n\
               Refs #133";
    let commit: Commit = parser().parse(msg).expect("valid");
    assert_eq!(
        commit,
        Commit {
            ty: "fix".into(),
            scope: None,
            breaking: false,
            description: "correct minor typos in code".into(),
            body: Some("see the issue for details\n\non typos fixed.".into()),
            footers: vec![
                Footer {
                    key: FooterKey::String("Reviewed-by".into()),
                    value: "Z".to_string()
                },
                Footer {
                    key: "Refs".into(),
                    value: "133".to_string()
                }
            ],
            references: vec![Reference {
                action: Some("Refs".into()),
                prefix: "#".into(),
                issue: "133".into()
            }],
        }
    );
    assert!(!commit.is_breaking());
}

#[test]
fn multiple_refs() {
    let msg = "revert: let us never again speak of the noodle incident #1\n\
    \n\
    Closes: #2, #42";
    let commit: Commit = parser().parse(msg).expect("valid");
    assert_eq!(
        commit,
        Commit {
            ty: "revert".into(),
            scope: None,
            breaking: false,
            description: "let us never again speak of the noodle incident #1".into(),
            body: None,
            footers: vec![Footer {
                key: "Closes".into(),
                value: "#2, #42".into()
            }],
            references: vec![
                Reference {
                    action: None,
                    prefix: "#".into(),
                    issue: "1".into()
                },
                Reference {
                    action: Some("Closes".into()),
                    prefix: "#".into(),
                    issue: "2".into()
                },
                Reference {
                    action: Some("Closes".into()),
                    prefix: "#".into(),
                    issue: "42".into()
                },
            ],
        }
    );
    assert!(!commit.is_breaking());
}

#[test]
fn test_with_strip_prefix() {
    let msg = "Merge PR 14: docs: correct spelling of CHANGELOG";
    let commit: Commit = CommitParser::builder()
        .strip_regex("^(?:Merge PR [0-9]+: )?".to_string())
        .build()
        .parse(msg)
        .expect("valid");
    assert_eq!(
        commit,
        Commit {
            ty: "docs".into(),
            scope: None,
            breaking: false,
            description: "correct spelling of CHANGELOG".into(),
            body: None,
            footers: Vec::new(),
            references: Vec::new(),
        }
    );
    assert!(!commit.is_breaking());
}
