use open_lights_manager::version::{
    clean_github_tag, compare_semver, is_outdated, is_stable, parse_semver, version_to_string,
};

fn parts(tag: &str) -> (u64, u64, u64, String, String) {
    let v = parse_semver(&tag.to_string());
    (v.major, v.minor, v.patch, v.pre.clone(), v.build.clone())
}

fn outdated(cur: &str, other: &str) -> bool {
    is_outdated(parse_semver(&cur.to_string()), parse_semver(&other.to_string()))
}

#[test]
fn clean_strips_to_first_digit() {
    assert_eq!(clean_github_tag(&"v1.2.3".to_string()), "1.2.3");
    assert_eq!(clean_github_tag(&"release-2.0.1".to_string()), "2.0.1");
    assert_eq!(clean_github_tag(&"1.0.0".to_string()), "1.0.0");
    assert_eq!(clean_github_tag(&"nodigits".to_string()), "");
}

#[test]
fn parse_plain_tag() {
    assert_eq!(parts("v1.2.3"), (1, 2, 3, String::new(), String::new()));
}

#[test]
fn parse_prerelease_tag() {
    assert_eq!(parts("v1.2.3-pre"), (1, 2, 3, "pre".to_string(), String::new()));
    assert_eq!(parts("v10.0.7-alpha.2"), (10, 0, 7, "alpha.2".to_string(), String::new()));
}

#[test]
fn parse_build_metadata() {
    assert_eq!(parts("2.10.0+build5"), (2, 10, 0, String::new(), "build5".to_string()));
    assert_eq!(parts("1.0.0-rc.1+exp.sha.5114f85"), (
        1,
        0,
        0,
        "rc.1".to_string(),
        "exp.sha.5114f85".to_string(),
    ));
}

#[test]
fn unparsable_tags_yield_zero() {
    assert_eq!(parts("not-a-version"), (0, 0, 0, String::new(), String::new()));
    assert_eq!(parts("1.2"), (0, 0, 0, String::new(), String::new()));
    assert_eq!(parts("1.2.3.4"), (0, 0, 0, String::new(), String::new()));
    assert_eq!(parts("01.2.3"), (0, 0, 0, String::new(), String::new()));
    assert_eq!(parts("1.2.3-"), (0, 0, 0, String::new(), String::new()));
    assert_eq!(parts("1.2.3-a..b"), (0, 0, 0, String::new(), String::new()));
    assert_eq!(parts(""), (0, 0, 0, String::new(), String::new()));
}

#[test]
fn numeric_components_must_fit() {
    assert_eq!(parts("18446744073709551615.0.0"), (
        u64::MAX,
        0,
        0,
        String::new(),
        String::new(),
    ));
    assert_eq!(parts("18446744073709551616.0.0"), (0, 0, 0, String::new(), String::new()));
}

#[test]
fn zero_version_is_outdated_against_valid_versions() {
    assert!(outdated("garbage", "v0.0.1"));
    assert!(outdated("garbage", "v1.0.0-alpha"));
    assert!(!outdated("garbage", "other-garbage"));
}

#[test]
fn precedence_numeric_triples() {
    assert!(outdated("1.2.3", "1.2.4"));
    assert!(outdated("1.2.3", "1.3.0"));
    assert!(outdated("1.2.3", "2.0.0"));
    assert!(!outdated("1.2.4", "1.2.3"));
    assert!(!outdated("1.2.3", "1.2.3"));
}

#[test]
fn precedence_prerelease_below_stable() {
    assert!(outdated("1.2.3-alpha", "1.2.3"));
    assert!(!outdated("1.2.3", "1.2.3-alpha"));
}

#[test]
fn precedence_prerelease_identifiers() {
    assert!(outdated("1.2.3-alpha", "1.2.3-beta"));
    assert!(outdated("1.2.3-alpha.1", "1.2.3-alpha.2"));
    assert!(outdated("1.2.3-2", "1.2.3-11"));
    assert!(outdated("1.2.3-11", "1.2.3-alpha"));
    assert!(outdated("1.2.3-alpha", "1.2.3-alpha.1"));
    assert!(!outdated("1.2.3-beta", "1.2.3-alpha"));
}

#[test]
fn compare_semver_returns_newer() {
    let a = parse_semver(&"1.2.3".to_string());
    let b = parse_semver(&"1.3.0".to_string());
    assert_eq!(compare_semver(a.clone(), b.clone()), b);
    let c = parse_semver(&"1.2.3".to_string());
    let d = parse_semver(&"1.2.3-rc.1".to_string());
    assert_eq!(compare_semver(c.clone(), d), c);
}

#[test]
fn stability() {
    assert!(is_stable(parse_semver(&"v1.2.3".to_string())));
    assert!(!is_stable(parse_semver(&"v1.2.3-beta".to_string())));
}

#[test]
fn rendering_round_trip() {
    let v = parse_semver(&"v1.2.3-pre".to_string());
    assert_eq!(version_to_string(&v), "1.2.3-pre");
    let w = parse_semver(&"bad".to_string());
    assert_eq!(version_to_string(&w), "0.0.0");
    let b = parse_semver(&"7.0.1+nightly".to_string());
    assert_eq!(version_to_string(&b), "7.0.1+nightly");
}

#[test]
fn agrees_with_semver_crate_on_components() {
    let tags = [
        "1.2.3",
        "0.1.0",
        "10.20.30",
        "1.2.3-alpha",
        "1.2.3-alpha.1",
        "1.2.3-0.3.7",
        "1.2.3-x-y-z.44",
        "1.2.3+build.5",
        "1.2.3-beta+exp.sha",
    ];
    for t in tags {
        let ours = parse_semver(&t.to_string());
        let theirs = semver::Version::parse(t).unwrap();
        assert_eq!(ours.major, theirs.major);
        assert_eq!(ours.minor, theirs.minor);
        assert_eq!(ours.patch, theirs.patch);
        assert_eq!(ours.pre.as_str(), theirs.pre.as_str());
        assert_eq!(ours.build.as_str(), theirs.build.as_str());
    }
}

#[test]
fn agrees_with_semver_crate_on_precedence() {
    let tags = [
        "1.0.0-alpha",
        "1.0.0-alpha.1",
        "1.0.0-alpha.beta",
        "1.0.0-beta",
        "1.0.0-beta.2",
        "1.0.0-beta.11",
        "1.0.0-rc.1",
        "1.0.0",
        "2.0.0",
        "2.1.0",
        "2.1.1",
    ];
    for a in tags {
        for b in tags {
            let ours = outdated(a, b);
            let theirs = semver::Version::parse(a).unwrap() < semver::Version::parse(b).unwrap();
            assert_eq!(ours, theirs, "disagreement on {a} vs {b}");
        }
    }
}
