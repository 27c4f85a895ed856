use rust_releases::channel::Channel;
use rust_releases::errors::RustReleasesError;
use rust_releases::manifests::MetaManifest;
use rust_releases::strategy::from_manifests::FromManifestsError;

#[test]
fn parses_meta_manifest_lines() {
    let mut text = String::new();
    text.push_str("static.rust-lang.org/dist/2021-02-10/channel-rust-nightly.toml\n");
    text.push_str("static.rust-lang.org/dist/2021-02-11/channel-rust-stable.toml\n");
    text.push_str("static.rust-lang.org/dist/2021-02-12/channel-rust-beta.toml\n");
    let contents = text.into_bytes();
    let meta = MetaManifest::try_from_bytes(&contents).unwrap();
    let sources = meta.manifests();
    assert_eq!(sources.len(), 3);
    assert_eq!(sources[0].channel(), Channel::Nightly);
    assert_eq!(sources[1].channel(), Channel::Stable);
    assert_eq!(sources[2].channel(), Channel::Beta);
    assert_eq!(sources[1].date().as_str(), "2021-02-11");
    assert_eq!(
        sources[1].url().as_str(),
        "static.rust-lang.org/dist/2021-02-11/channel-rust-stable.toml"
    );
}

#[test]
fn skips_blank_lines() {
    let contents = b"\nstatic.rust-lang.org/dist/2021-02-11/channel-rust-stable.toml\n\n".to_vec();
    let meta = MetaManifest::try_from_bytes(&contents).unwrap();
    assert_eq!(meta.manifests().len(), 1);
}

#[test]
fn rejects_unknown_file_name() {
    let contents = b"static.rust-lang.org/dist/2021-02-11/channel-rust-dev.toml\n".to_vec();
    let err = MetaManifest::try_from_bytes(&contents).unwrap_err();
    assert!(matches!(
        err,
        RustReleasesError::FromManifestsError(FromManifestsError::ParseManifestSource)
    ));
}

#[test]
fn rejects_malformed_date() {
    let contents = b"static.rust-lang.org/dist/2021-2-11/channel-rust-stable.toml\n".to_vec();
    let err = MetaManifest::try_from_bytes(&contents).unwrap_err();
    assert!(matches!(
        err,
        RustReleasesError::FromManifestsError(FromManifestsError::ParseManifestDate)
    ));
}

#[test]
fn rejects_line_without_slashes() {
    let contents = b"channel-rust-stable-toml\n".to_vec();
    let err = MetaManifest::try_from_bytes(&contents).unwrap_err();
    assert!(matches!(
        err,
        RustReleasesError::FromManifestsError(FromManifestsError::ParseManifestSource)
    ));
}

#[test]
fn rejects_undecodable_line() {
    // structurally valid, but the url itself is not UTF-8 text
    let mut contents = b"sta".to_vec();
    contents.push(0xff);
    contents.extend_from_slice(b"tic/dist/2021-02-11/channel-rust-stable.toml\n");
    let err = MetaManifest::try_from_bytes(&contents).unwrap_err();
    assert!(matches!(
        err,
        RustReleasesError::FromManifestsError(FromManifestsError::ParseMetaManifest)
    ));
}

#[test]
fn channel_lookup_by_name() {
    assert_eq!(Channel::from_name("stable").unwrap(), Channel::Stable);
    assert_eq!(Channel::from_name("beta").unwrap(), Channel::Beta);
    assert_eq!(Channel::from_name("nightly").unwrap(), Channel::Nightly);
    let err = Channel::from_name("dev").unwrap_err();
    assert!(matches!(err, RustReleasesError::NoSuchChannel(n) if n == "dev"));
    assert_eq!(Channel::Stable.name(), "stable");
}
