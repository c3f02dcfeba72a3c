use flightrelay::version::{parse_semver, version_at_most, PreIdent, SemVersion};

#[test]
fn parse_semantic_versions() {
    assert_eq!(
        parse_semver("0.1.0"),
        Some(SemVersion { major: 0, minor: 1, patch: 0, pre: vec![] })
    );
    assert_eq!(
        parse_semver("1.0.0-alpha.1+build.5"),
        Some(SemVersion {
            major: 1,
            minor: 0,
            patch: 0,
            pre: vec![PreIdent::Alphanumeric(vec!['a', 'l', 'p', 'h', 'a']), PreIdent::Numeric(1)],
        })
    );
    assert_eq!(
        parse_semver("2.3.4-x-y"),
        Some(SemVersion {
            major: 2,
            minor: 3,
            patch: 4,
            pre: vec![PreIdent::Alphanumeric(vec!['x', '-', 'y'])],
        })
    );
    assert_eq!(parse_semver("18446744073709551615.0.0").map(|v| v.major), Some(u64::MAX));
}

#[test]
fn reject_non_semantic_versions() {
    for bad in [
        "", "1", "1.0", "1.0.0.0", "01.0.0", "1..0", "1.0.0-", "1.0.0-a..b", "1.0.0-01",
        "1.0.0+", "1.0.0+a..b", "1.0.0-a_b", "v1.0.0", "18446744073709551616.0.0",
    ] {
        assert_eq!(parse_semver(bad), None, "{bad}");
    }
}

#[test]
fn semantic_version_precedence() {
    let ordered = [
        "1.0.0-alpha",
        "1.0.0-alpha.1",
        "1.0.0-alpha.beta",
        "1.0.0-beta",
        "1.0.0-beta.2",
        "1.0.0-beta.11",
        "1.0.0-rc.1",
        "1.0.0",
        "1.0.1",
        "1.1.0",
        "2.0.0",
    ];
    for (i, a) in ordered.iter().enumerate() {
        for (j, b) in ordered.iter().enumerate() {
            assert_eq!(version_at_most(a, b), Some(i <= j), "{a} vs {b}");
        }
    }
    assert_eq!(version_at_most("0.9.0", "0.10.0"), Some(true));
    assert_eq!(version_at_most("1.0.0+a", "1.0.0+b"), Some(true));
    assert_eq!(version_at_most("1.0.0+b", "1.0.0+a"), Some(true));
    assert_eq!(version_at_most("1.0.0-1", "1.0.0-a"), Some(true));
    assert_eq!(version_at_most("1.0.0-a", "1.0.0-1"), Some(false));
    assert_eq!(version_at_most("beta", "0.0.1"), None);
    assert_eq!(version_at_most("0.0.1", "1.0"), None);
}
