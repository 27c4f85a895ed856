use rust_releases::index::ReleaseIndex;
use rust_releases::release::{Release, Version};

#[test]
fn from_releases_sorts_ascending() {
    let input = vec![
        Release::new(Version::new(1, 50, 0)),
        Release::new(Version::new(1, 48, 0)),
        Release::new(Version::new(1, 49, 2)),
    ];
    let index = ReleaseIndex::from_releases(input);
    assert_eq!(index.len(), 3);
    assert_eq!(index.releases()[0].version(), &Version::new(1, 48, 0));
    assert_eq!(index.releases()[1].version(), &Version::new(1, 49, 2));
    assert_eq!(index.releases()[2].version(), &Version::new(1, 50, 0));
}

#[test]
fn from_releases_deduplicates() {
    let input = vec![
        Release::new(Version::new(1, 50, 0)),
        Release::new(Version::new(1, 50, 0)),
        Release::new(Version::new(1, 50, 0)),
        Release::new(Version::new(1, 49, 0)),
    ];
    let index = ReleaseIndex::from_releases(input);
    assert_eq!(index.len(), 2);
    assert_eq!(index.releases()[0].version(), &Version::new(1, 49, 0));
    assert_eq!(index.releases()[1].version(), &Version::new(1, 50, 0));
}

#[test]
fn from_releases_independent_of_input_order() {
    let a = ReleaseIndex::from_releases(vec![
        Release::new(Version::new(1, 10, 0)),
        Release::new(Version::new(1, 2, 0)),
        Release::new(Version::new(1, 2, 0)),
    ]);
    let b = ReleaseIndex::from_releases(vec![
        Release::new(Version::new(1, 2, 0)),
        Release::new(Version::new(1, 10, 0)),
    ]);
    assert_eq!(a, b);
}

#[test]
fn from_releases_orders_numerically_not_lexically() {
    // 1.9.0 precedes 1.10.0 numerically although not as text
    let index = ReleaseIndex::from_releases(vec![
        Release::new(Version::new(1, 10, 0)),
        Release::new(Version::new(1, 9, 0)),
    ]);
    assert_eq!(index.releases()[0].version(), &Version::new(1, 9, 0));
    assert_eq!(index.releases()[1].version(), &Version::new(1, 10, 0));
}

#[test]
fn empty_index() {
    let index = ReleaseIndex::from_releases(vec![]);
    assert_eq!(index.len(), 0);
    assert!(index.most_recent().is_none());
    assert!(index.get(0).is_none());
}

#[test]
fn accessors() {
    let index = ReleaseIndex::from_releases(vec![
        Release::new(Version::new(1, 0, 0)),
        Release::new(Version::new(1, 31, 1)),
    ]);
    assert_eq!(
        index.most_recent().unwrap().version(),
        &Version::new(1, 31, 1)
    );
    assert_eq!(index.get(0).unwrap().version(), &Version::new(1, 0, 0));
    assert!(index.get(2).is_none());
    assert!(index.contains(&Version::new(1, 31, 1)));
    assert!(!index.contains(&Version::new(1, 31, 0)));
}

#[test]
fn version_ordering() {
    assert!(Version::new(1, 2, 3).lt(&Version::new(2, 0, 0)));
    assert!(Version::new(1, 2, 3).lt(&Version::new(1, 3, 0)));
    assert!(Version::new(1, 2, 3).lt(&Version::new(1, 2, 4)));
    assert!(!Version::new(1, 2, 3).lt(&Version::new(1, 2, 3)));
    assert!(!Version::new(2, 0, 0).lt(&Version::new(1, 99, 99)));
}
