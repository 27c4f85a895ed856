use rust_releases::errors::RustReleasesError;
use rust_releases::release::Version;
use rust_releases::source::rust_dist_with_cli::{DistIndexError, RustDistWithCLI};
use rust_releases::source::Document;
use rust_releases::ReleaseIndex;

#[test]
fn listing_line_yields_version() {
    let listing = b"2021-03-25 09:00:01 123456789 rust-1.50.0-x86_64-unknown-linux-gnu.tar.gz\n"
        .to_vec();
    let index = RustDistWithCLI::index_from_contents(&listing).unwrap();
    assert_eq!(index.len(), 1);
    assert_eq!(index.releases()[0].version(), &Version::new(1, 50, 0));
}

#[test]
fn listing_pre_line_yields_nothing() {
    let listing = b"                           PRE rust-1.50.0-x86_64-unknown-linux-gnu/\n"
        .to_vec();
    let index = RustDistWithCLI::index_from_contents(&listing).unwrap();
    assert_eq!(index.len(), 0);
}

#[test]
fn listing_skips_non_matching_lines() {
    let mut text = String::new();
    text.push_str("2021-03-25 09:00:01 123456789 rust-1.50.0-x86_64-unknown-linux-gnu.tar.gz\n");
    text.push_str("                           PRE 2021/\n");
    text.push_str("2021-03-25 09:00:01 42 cargo-0.49.0-x86_64-unknown-linux-gnu.tar.gz\n");
    text.push_str("malformed line\n");
    text.push_str("2021-02-11 09:00:01 123456789 rust-1.49.0-x86_64-unknown-linux-gnu.tar.gz\n");
    text.push_str("2021-03-25 09:00:01 123456789 rust-1.50.0-aarch64-unknown-linux-gnu.tar.gz\n");
    let listing = text.into_bytes();
    let index = RustDistWithCLI::index_from_contents(&listing).unwrap();
    // two distinct versions: 1.49.0 and 1.50.0 (the second 1.50.0 artifact
    // deduplicates)
    assert_eq!(index.len(), 2);
    assert_eq!(index.releases()[0].version(), &Version::new(1, 49, 0));
    assert_eq!(index.releases()[1].version(), &Version::new(1, 50, 0));
}

#[test]
fn listing_rejects_invalid_utf8() {
    let listing = vec![0xff, 0xfe, b'\n'];
    let err = RustDistWithCLI::index_from_contents(&listing).unwrap_err();
    assert!(matches!(
        err,
        RustReleasesError::DistIndexError(DistIndexError::UnrecognizedText)
    ));
}

#[test]
fn strategy_dist_index() {
    // a listing in the shape of the S3 distribution index, with one
    // artifact line per minor release up to 1.50.0: the index sorts
    // ascending, so 1.50.0 is its highest version
    let mut listing = String::new();
    for minor in 0..51 {
        listing.push_str(&format!(
            "2021-03-25 09:00:01 123456789 rust-1.{}.0-x86_64-unknown-linux-gnu.tar.gz\n",
            minor
        ));
    }
    let expected_version = Version::new(1, 50, 0);

    let strategy = RustDistWithCLI::from_document(Document::RemoteCached(
        String::from("dist.txt"),
        listing.into_bytes(),
    ));
    let contents = strategy.source_document().cached_contents().unwrap();
    let index: ReleaseIndex = RustDistWithCLI::index_from_contents(contents).unwrap();

    assert!(index.releases().len() > 50);
    assert_eq!(index.most_recent().unwrap().version(), &expected_version);
    assert_eq!(
        index.releases()[index.len() - 1].version(),
        &expected_version
    );
}
