use convco::config::Config;
use convco::host::{
    host_info, host_info_from_parts, host_info_from_url, make_cl_config, normalize, InvalidUrl,
    UrlParts,
};

type HostOwnerRepo = (Option<String>, Option<String>, Option<String>);

fn assert_all(url: &str, host: &str, owner: &str, repo: &str) {
    let expected: HostOwnerRepo = (
        Some(host.to_string()),
        Some(owner.to_string()),
        Some(repo.to_string()),
    );
    let result = host_info_from_url(url).unwrap();
    assert_eq!(result, expected);
}

#[test]
fn test_host_info_from_url() {
    assert_all(
        "https://github.com/convco/convco.git",
        "https://github.com",
        "convco",
        "convco",
    );
    assert_all(
        "http://github.com/convco/convco.git",
        "http://github.com",
        "convco",
        "convco",
    );
    assert_all(
        "https://gitlab.com/group/subgroup/repo.git",
        "https://gitlab.com",
        "group/subgroup",
        "repo",
    );
    assert_all(
        // git@github.com:convco/convco.git is replaced to scheme://git@github.com/convco/convco.git
        "scheme://git@github.com/convco/convco.git",
        "https://github.com",
        "convco",
        "convco",
    );
}

#[test]
fn address_gets_a_scheme() {
    assert_eq!(normalize("https://github.com/a/b"), "https://github.com/a/b");
    assert_eq!(
        normalize("git@github.com:convco/convco.git"),
        "scheme://git@github.com/convco/convco.git"
    );
    assert_eq!(normalize("host:8080/a/b"), "scheme://host:8080/a/b");
    assert_eq!(normalize("nothing"), "nothing");
    assert_eq!(normalize("x:"), "scheme://x/");
}

#[test]
fn host_info_of_a_remote() {
    let expected: HostOwnerRepo = (
        Some("https://github.com".into()),
        Some("convco".into()),
        Some("convco".into()),
    );
    assert_eq!(host_info(Some("git@github.com:convco/convco.git")), Ok(expected));
    assert_eq!(host_info(None), Ok((None, None, None)));
    assert_eq!(host_info(Some("nothing")), Err(InvalidUrl));
}

#[test]
fn parts_without_a_host_or_a_slash() {
    let parts = UrlParts { scheme: "mailto".into(), host: None, path: "someone".into() };
    assert_eq!(host_info_from_parts(&parts), (None, None, None));
    let parts = UrlParts {
        scheme: "ssh".into(),
        host: Some("h".into()),
        path: "//o/r.git.git".into(),
    };
    assert_eq!(
        host_info_from_parts(&parts),
        (Some("ssh://h".into()), Some("o".into()), Some("r".into()))
    );
}

#[test]
fn configuration_is_completed() {
    let found: HostOwnerRepo = (Some("https://h".into()), Some("o".into()), Some("r".into()));
    let config = make_cl_config(Config::default(), Some(found.clone()));
    assert_eq!(config.host, found.0);
    assert_eq!(config.owner, found.1);
    assert_eq!(config.repository, found.2);
    assert!(config.link_references);
    let bare = make_cl_config(Config::default(), None);
    assert_eq!(bare.host, None);
    assert!(!bare.link_references);
    let mut named = Config::default();
    named.owner = Some("me".into());
    let kept = make_cl_config(named, Some(found));
    assert_eq!((kept.host, kept.owner), (None, Some("me".to_string())));
    assert!(!kept.link_references);
}
