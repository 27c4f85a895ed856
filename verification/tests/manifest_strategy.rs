use rust_releases::errors::RustReleasesError;
use rust_releases::release::Version;
use rust_releases::strategy::from_manifests::{
    parse_release_manifest, FromManifests, FromManifestsError,
};
use rust_releases::DocumentSource;

fn manifest(version_line: &str) -> Vec<u8> {
    format!(
        "manifest-version = \"2\"\ndate = \"2021-02-11\"\n[pkg.rust]\n{}\n",
        version_line
    )
    .into_bytes()
}

#[test]
fn parse_release_manifest_extracts_version() {
    let doc = manifest("version = \"1.50.0 (cb75ad5db 2021-02-10)\"");
    let version = parse_release_manifest(&doc).unwrap();
    assert_eq!(version, Version::new(1, 50, 0));
}

#[test]
fn parse_release_manifest_requires_section() {
    let doc = b"version = \"1.50.0\"\n[pkg.cargo]\nversion = \"0.50.0\"\n".to_vec();
    let err = parse_release_manifest(&doc).unwrap_err();
    assert!(matches!(
        err,
        RustReleasesError::FromManifestsError(FromManifestsError::RustVersionNotFoundInManifest)
    ));
}

#[test]
fn parse_release_manifest_rejects_bad_version() {
    let doc = manifest("version = \"not-a-version\"");
    let err = parse_release_manifest(&doc).unwrap_err();
    assert!(matches!(
        err,
        RustReleasesError::FromManifestsError(FromManifestsError::ParseRustVersion)
    ));
}

#[test]
fn parse_release_manifest_rejects_invalid_utf8() {
    let doc = vec![0xff, 0xfe, 0xfd];
    let err = parse_release_manifest(&doc).unwrap_err();
    assert!(matches!(
        err,
        RustReleasesError::FromManifestsError(FromManifestsError::DeserializeToml)
    ));
}

#[test]
fn build_index_over_two_manifests() {
    let docs = vec![
        manifest("version = \"1.49.0 (e1884a8e3 2020-12-29)\""),
        manifest("version = \"1.50.0 (cb75ad5db 2021-02-10)\""),
    ];
    let index = FromManifests::index_from_contents(&docs).unwrap();
    assert_eq!(index.len(), 2);
    assert_eq!(
        index.most_recent().unwrap().version(),
        &Version::new(1, 50, 0)
    );
}

#[test]
fn build_index_fails_on_one_bad_manifest() {
    let docs = vec![
        manifest("version = \"1.49.0 (e1884a8e3 2020-12-29)\""),
        b"not a manifest at all\n".to_vec(),
        manifest("version = \"1.50.0 (cb75ad5db 2021-02-10)\""),
    ];
    let result = FromManifests::index_from_contents(&docs);
    assert!(matches!(
        result,
        Err(RustReleasesError::FromManifestsError(
            FromManifestsError::RustVersionNotFoundInManifest
        ))
    ));
}

#[test]
fn from_documents_keeps_documents() {
    let strategy = FromManifests::from_documents(vec![
        DocumentSource::LocalPath(String::from("stable_2021-02-11.toml")),
        DocumentSource::RemoteCached(String::from("beta_2021-02-11.toml"), vec![1, 2, 3]),
    ]);
    assert_eq!(strategy.documents().len(), 2);
    assert!(matches!(
        &strategy.documents()[0],
        DocumentSource::LocalPath(p) if p == "stable_2021-02-11.toml"
    ));
}
