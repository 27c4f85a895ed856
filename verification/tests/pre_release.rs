use rust_releases::index::ReleaseIndex;
use rust_releases::release::{Release, Version};
use rust_releases::strategy::from_manifests::parse_release_manifest;

fn beta(n: &str) -> Version {
    Version::with_pre(1, 50, 0, format!("beta.{}", n).into_bytes())
}

#[test]
fn pre_release_precedes_release() {
    // 1.50.0-beta.1 < 1.50.0, and 1.49.0 < 1.50.0-beta.1
    assert!(beta("1").lt(&Version::new(1, 50, 0)));
    assert!(!Version::new(1, 50, 0).lt(&beta("1")));
    assert!(Version::new(1, 49, 0).lt(&beta("1")));
}

#[test]
fn pre_release_identifier_order() {
    // numeric identifiers compare numerically: beta.2 < beta.11
    assert!(beta("2").lt(&beta("11")));
    // a numeric identifier is below an alphanumeric one: 1.50.0-1 < 1.50.0-alpha
    let numeric = Version::with_pre(1, 50, 0, b"1".to_vec());
    let alpha = Version::with_pre(1, 50, 0, b"alpha".to_vec());
    assert!(numeric.lt(&alpha));
    assert!(!alpha.lt(&numeric));
    // alphanumeric identifiers compare in ASCII order: alpha < beta
    let a = Version::with_pre(1, 50, 0, b"alpha".to_vec());
    let b = Version::with_pre(1, 50, 0, b"beta".to_vec());
    assert!(a.lt(&b));
    // fewer fields precede more fields: alpha < alpha.1
    let longer = Version::with_pre(1, 50, 0, b"alpha.1".to_vec());
    assert!(a.lt(&longer));
    assert!(!longer.lt(&a));
}

#[test]
fn pre_release_identity() {
    assert_eq!(beta("1"), beta("1"));
    assert_ne!(beta("1"), beta("2"));
    assert_ne!(beta("1"), Version::new(1, 50, 0));
}

#[test]
fn index_keeps_distinct_pre_releases() {
    // two betas and the final release of 1.50.0 are three distinct
    // releases, sorted beta.1 < beta.2 < 1.50.0
    let index = ReleaseIndex::from_releases(vec![
        Release::new(Version::new(1, 50, 0)),
        Release::new(beta("2")),
        Release::new(beta("1")),
        Release::new(beta("2")),
    ]);
    assert_eq!(index.len(), 3);
    assert_eq!(index.releases()[0].version(), &beta("1"));
    assert_eq!(index.releases()[1].version(), &beta("2"));
    assert_eq!(index.releases()[2].version(), &Version::new(1, 50, 0));
    assert!(index.contains(&beta("1")));
    assert!(!index.contains(&beta("3")));
}

#[test]
fn manifest_with_pre_release_version() {
    let doc = String::from(
        "manifest-version = \"2\"\n[pkg.rust]\nversion = \"1.51.0-beta.2 (abcdef012 2021-02-20)\"\n",
    )
    .into_bytes();
    let version = parse_release_manifest(&doc).unwrap();
    assert_eq!(
        version,
        Version::with_pre(1, 51, 0, b"beta.2".to_vec())
    );
}
