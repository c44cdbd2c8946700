use convco::versions::{InvalidVersion, SemVer};
use semver::{Prerelease, Version};

fn v(text: &str) -> SemVer {
    SemVer::parse(text).unwrap()
}

#[test]
fn version_is_read_as_the_semver_crate_reads_it() {
    let ours = v("1.2.3-rc.1+build.5");
    let theirs = Version::parse("1.2.3-rc.1+build.5").unwrap();
    assert_eq!((ours.major(), ours.minor(), ours.patch()), (1, 2, 3));
    assert_eq!(ours.pre, theirs.pre);
    assert_eq!(ours.build, theirs.build);
    assert!(ours.is_prerelease());
    assert_eq!(SemVer::parse("1.2"), None);
    assert_eq!(SemVer::from_str("v1.2.3"), Err(InvalidVersion));
    assert_eq!(SemVer::from_str("0.0.0"), Ok(SemVer::new(0, 0, 0)));
}

#[test]
fn version_is_written_as_the_semver_crate_writes_it() {
    for text in ["0.0.0", "1.2.3", "10.20.30-alpha.1", "1.0.0+b", "18446744073709551615.0.1-x+y.z"] {
        assert_eq!(v(text).to_string(), Version::parse(text).unwrap().to_string());
    }
}

#[test]
fn increments_reset_what_follows() {
    let mut a = v("1.2.3-rc.1+b");
    a.increment_patch();
    assert_eq!(a, v("1.2.4"));
    let mut b = v("1.2.3-rc.1+b");
    b.increment_minor();
    assert_eq!(b, v("1.3.0"));
    let mut c = v("1.2.3-rc.1+b");
    c.increment_major();
    assert_eq!(c, v("2.0.0"));
    let mut d = v("1.2.3-rc.1+b");
    d.pre_clear();
    assert_eq!(d, v("1.2.3+b"));
    d.build_clear();
    assert_eq!(d, v("1.2.3"));
    assert!(!d.is_prerelease());
    assert_eq!(d.clone(), d);
}

#[test]
fn prerelease_counts_on() {
    let rc = Prerelease::new("rc").unwrap();
    let mut a = v("1.2.3");
    a.increment_prerelease(&rc, None);
    assert_eq!(a, v("1.2.3-rc.1"));
    a.increment_prerelease(&rc, Some(9));
    assert_eq!(a, v("1.2.3-rc.2"));
    let mut b = v("1.2.3");
    b.increment_prerelease(&rc, Some(7));
    assert_eq!(b, v("1.2.3-rc.7"));
    let mut c = v("1.2.3-alpha");
    c.increment_prerelease(&rc, None);
    assert_eq!(c, v("1.2.3-rc.1"));
    let mut d = v("1.2.3-beta.x.4");
    d.increment_prerelease(&Prerelease::new("dev.x").unwrap(), None);
    assert_eq!(d, v("1.2.3-dev.x.1"));
    let mut e = v("1.2.3-beta.41");
    e.increment_prerelease(&rc, None);
    assert_eq!(e, v("1.2.3-rc.42"));
}

#[test]
fn precedence_is_that_of_semantic_versions() {
    let order = [
        "0.9.9", "1.0.0-alpha", "1.0.0-alpha.1", "1.0.0-alpha.beta", "1.0.0-beta", "1.0.0-beta.2",
        "1.0.0-beta.11", "1.0.0-rc.1", "1.0.0", "1.0.1", "1.1.0", "2.0.0",
    ];
    for i in 0..order.len() {
        for j in 0..order.len() {
            assert_eq!(v(order[i]).precedes(&v(order[j])), i < j, "{} {}", order[i], order[j]);
            assert_eq!(
                v(order[i]).precedes(&v(order[j])),
                Version::parse(order[i]).unwrap().cmp_precedence(&Version::parse(order[j]).unwrap())
                    == std::cmp::Ordering::Less
            );
        }
    }
    assert!(!v("1.0.0+a").precedes(&v("1.0.0+b")));
    assert!(!v("1.0.0+b").precedes(&v("1.0.0+a")));
    assert!(v("1.2.3").numbers_precede(&v("1.2.4-rc.1")));
    assert!(!v("1.2.3-rc.1").numbers_precede(&v("1.2.3")));
}
