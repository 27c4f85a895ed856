use rust_releases::channel::Channel;
use rust_releases::dl::{
    collect_sources, manifest_file_name, plan_download, release_manifest_requests, FetchDecision,
    META_MANIFEST_STALENESS_TIMEOUT, RELEASE_MANIFEST_STALENESS_TIMEOUT,
};
use rust_releases::errors::RustReleasesError;
use rust_releases::manifests::{ManifestSource, MetaManifest};
use rust_releases::DocumentSource;

#[test]
fn plan_download_without_cache_entry_downloads() {
    let plan = plan_download(None, 1_000_000, META_MANIFEST_STALENESS_TIMEOUT).unwrap();
    assert_eq!(plan, FetchDecision::Download);
}

#[test]
fn plan_download_fresh_entry_reuses_cache() {
    // second fetch within the staleness window: the entry written by the
    // first fetch is reused, no second network request is made
    let written_at = 1_000_000;
    let now = written_at + META_MANIFEST_STALENESS_TIMEOUT - 1;
    let plan = plan_download(Some(written_at), now, META_MANIFEST_STALENESS_TIMEOUT).unwrap();
    assert_eq!(plan, FetchDecision::UseCache);
}

#[test]
fn plan_download_stale_entry_downloads() {
    let modified = 1_000_000;
    let now = modified + META_MANIFEST_STALENESS_TIMEOUT + 1;
    let plan = plan_download(Some(modified), now, META_MANIFEST_STALENESS_TIMEOUT).unwrap();
    assert_eq!(plan, FetchDecision::Download);
}

#[test]
fn plan_download_at_exact_timeout_reuses_cache() {
    // an entry exactly as old as the timeout is still treated as fresh:
    // staleness requires the age to exceed the timeout
    let modified = 1_000_000;
    let now = modified + RELEASE_MANIFEST_STALENESS_TIMEOUT;
    let plan = plan_download(Some(modified), now, RELEASE_MANIFEST_STALENESS_TIMEOUT).unwrap();
    assert_eq!(plan, FetchDecision::UseCache);
}

#[test]
fn plan_download_clock_went_backward() {
    let err = plan_download(Some(2_000_000), 1_000_000, META_MANIFEST_STALENESS_TIMEOUT)
        .unwrap_err();
    assert!(matches!(err, RustReleasesError::SystemTime));
}

fn meta_with_all_channels() -> MetaManifest {
    MetaManifest::from_sources(vec![
        ManifestSource::new(
            Channel::Nightly,
            String::from("2021-02-10"),
            String::from("static.rust-lang.org/dist/2021-02-10/channel-rust-nightly.toml"),
        ),
        ManifestSource::new(
            Channel::Stable,
            String::from("2021-02-11"),
            String::from("static.rust-lang.org/dist/2021-02-11/channel-rust-stable.toml"),
        ),
        ManifestSource::new(
            Channel::Beta,
            String::from("2021-02-12"),
            String::from("static.rust-lang.org/dist/2021-02-12/channel-rust-beta.toml"),
        ),
        ManifestSource::new(
            Channel::Stable,
            String::from("2021-03-25"),
            String::from("static.rust-lang.org/dist/2021-03-25/channel-rust-stable.toml"),
        ),
    ])
}

#[test]
fn resolution_filters_to_requested_channel() {
    let meta = meta_with_all_channels();
    let requests = release_manifest_requests(&meta, Channel::Stable);
    assert_eq!(requests.len(), 2);
    for request in &requests {
        assert_eq!(request.channel, Channel::Stable);
    }
    assert_eq!(
        requests[0].url,
        "static.rust-lang.org/dist/2021-02-11/channel-rust-stable.toml"
    );
    assert_eq!(requests[0].cache_key, "stable_2021-02-11.toml");
    assert_eq!(requests[1].cache_key, "stable_2021-03-25.toml");
}

#[test]
fn resolution_keeps_document_order() {
    let meta = meta_with_all_channels();
    let requests = release_manifest_requests(&meta, Channel::Stable);
    assert!(requests[0].url < requests[1].url);
}

#[test]
fn manifest_file_name_shape() {
    let source = ManifestSource::new(
        Channel::Nightly,
        String::from("2021-02-10"),
        String::from("static.rust-lang.org/dist/2021-02-10/channel-rust-nightly.toml"),
    );
    assert_eq!(manifest_file_name(&source), "nightly_2021-02-10.toml");
}

#[test]
fn collect_sources_all_ok() {
    let mut results = vec![
        Ok(DocumentSource::LocalPath(String::from("a.toml"))),
        Ok(DocumentSource::LocalPath(String::from("b.toml"))),
    ];
    let docs = collect_sources(&mut results).unwrap();
    assert_eq!(docs.len(), 2);
    assert!(matches!(&docs[1], DocumentSource::LocalPath(p) if p == "b.toml"));
}

#[test]
fn collect_sources_aborts_on_first_failure() {
    // a failing fetch in the middle aborts the whole resolution: no
    // partial document list is handed on
    let mut results = vec![
        Ok(DocumentSource::LocalPath(String::from("a.toml"))),
        Err(RustReleasesError::Network(String::from("connection refused"))),
        Ok(DocumentSource::LocalPath(String::from("c.toml"))),
    ];
    let err = collect_sources(&mut results).unwrap_err();
    assert!(matches!(err, RustReleasesError::Network(m) if m == "connection refused"));
}
