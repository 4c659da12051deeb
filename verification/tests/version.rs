use tokenguard::commands::parse_version_triple;
use tokenguard::version::{parse_release_version, update_available};

#[test]
fn parses_stable_tags_with_and_without_prefix() {
    let v = parse_release_version("v0.1.8").unwrap();
    assert_eq!((v.major(), v.minor(), v.patch(), v.pre()), (0, 1, 8, ""));
    let v = parse_release_version("0.1.8").unwrap();
    assert_eq!((v.major(), v.minor(), v.patch(), v.pre()), (0, 1, 8, ""));
}

#[test]
fn parses_prerelease_tags() {
    let v = parse_release_version("v0.2.0-beta.6").expect("beta tag must parse");
    assert_eq!((v.major(), v.minor(), v.patch()), (0, 2, 0));
    assert_eq!(v.pre(), "beta.6");
}

#[test]
fn orders_prereleases_within_a_version() {
    let b5 = parse_release_version("v0.2.0-beta.5").unwrap();
    let b6 = parse_release_version("v0.2.0-beta.6").unwrap();
    assert!(b6.is_newer_than(&b5), "beta.6 must rank above beta.5");
    assert!(parse_release_version("v0.2.0-beta.10").unwrap().is_newer_than(&b6));
}

#[test]
fn prerelease_ranks_below_its_release() {
    let beta = parse_release_version("v0.2.0-beta.6").unwrap();
    let final_ = parse_release_version("v0.2.0").unwrap();
    assert!(final_.is_newer_than(&beta), "0.2.0 must supersede 0.2.0-beta.6");
}

#[test]
fn prerelease_ranks_above_the_previous_release() {
    assert!(parse_release_version("v0.2.0-beta.6")
        .unwrap()
        .is_newer_than(&parse_release_version("v0.1.8").unwrap()));
}

#[test]
fn rejects_unparseable_tags() {
    assert!(parse_release_version("nightly").is_none());
    assert!(parse_release_version("v1.2").is_none());
    assert!(parse_release_version("").is_none());
}

#[test]
fn update_check_compares_versions_not_strings() {
    assert!(update_available("v0.2.0", "0.1.8"));
    assert!(!update_available("v0.1.8", "0.2.0"));
    assert!(!update_available("v0.1.8", "0.1.8"));
    assert!(update_available("nightly", "0.1.8"));
    assert!(!update_available("vnightly", "nightly"));
}

#[test]
fn version_triples_ignore_a_v_prefix_and_extra_parts() {
    assert_eq!(parse_version_triple("v1.2.3"), Some((1, 2, 3)));
    assert_eq!(parse_version_triple("1.2.3.4"), Some((1, 2, 3)));
    assert_eq!(parse_version_triple("1.2"), None);
    assert_eq!(parse_version_triple("1.x.3"), None);
}
