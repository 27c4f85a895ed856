//! The staleness-aware cache layer: what a download decides, and which
//! per-channel resources a fetch must obtain.
//!
//! The filesystem and network work itself (stat, create, GET, write) is done
//! by the caller, who hands in plain values: the cached entry's modification
//! time, the clock reading, and the bytes that came back. Everything the
//! original fetch sequence decides — whether the cache may be reused, which
//! manifests a channel needs, under what file name each is cached, and that
//! one failure aborts the whole resolution — is decided and proved here.

use vstd::prelude::*;
use vstd::string::StringExecFns;

use crate::channel::Channel;
use crate::errors::RustReleasesError;
use crate::manifests::{ManifestSource, MetaManifest};

verus! {

/// Staleness timeout, in seconds, for the meta manifest: about one day,
/// since the index-of-indices changes frequently.
pub const META_MANIFEST_STALENESS_TIMEOUT: u64 = 86_400;

/// Staleness timeout, in seconds, for an individual dated release manifest:
/// about one year, since a manifest, once published, never changes.
pub const RELEASE_MANIFEST_STALENESS_TIMEOUT: u64 = 31_557_600;

/// A DocumentSource represents a location from which a document can be
/// accessed.
#[derive(Debug, PartialEq, Eq)]
pub enum DocumentSource {
    /// The document is present on disk (e.g. pulled from the cache), at the
    /// given path, or accessible locally.
    LocalPath(String),
    /// The document has just been downloaded from a remote: the path is
    /// where its contents were written (as cache), the buffer holds the
    /// contents, so the fresh download does not have to be re-read.
    RemoteCached(String, Vec<u8>),
}

impl DocumentSource {
    /// The in-memory contents, for a just-downloaded document; a document
    /// that lives on disk must be read from its path instead.
    pub fn cached_contents(&self) -> (r: Option<&Vec<u8>>)
        ensures
            r is Some <==> self is RemoteCached,
            r matches Some(c) ==> (self matches DocumentSource::RemoteCached(_, b) && c@ == b@),
    {
        match self {
            DocumentSource::LocalPath(_) => None,
            DocumentSource::RemoteCached(_, buffer) => Some(buffer),
        }
    }
}

/// What a staleness-aware fetch decides once it has looked at the cache.
#[derive(Clone, Copy, Debug, PartialEq, Eq, Structural)]
pub enum FetchDecision {
    /// The cached copy exists and is fresh: it is served from disk, and no
    /// network access occurs.
    UseCache,
    /// The cached copy is absent or stale: the resource must be downloaded,
    /// and the download then overwrites the cache entry.
    Download,
}

/// The decision of the staleness-aware cache fetch, given the cache entry's
/// modification time (if the entry exists), the present time, and the
/// staleness timeout, all in seconds. A cached copy no older than the
/// timeout is reused; an absent or older copy is downloaded anew; an entry
/// from the future means the clock went backward, which is an error.
pub open spec fn spec_plan_download(
    cached_modified: Option<u64>,
    now: u64,
    timeout: u64,
) -> Result<FetchDecision, RustReleasesError> {
    match cached_modified {
        Some(modified) => if modified > now {
            Err(RustReleasesError::SystemTime)
        } else if now - modified <= timeout {
            Ok(FetchDecision::UseCache)
        } else {
            Ok(FetchDecision::Download)
        },
        None => Ok(FetchDecision::Download),
    }
}

/// Decides whether a cached resource may be reused or must be re-fetched.
/// `cached_modified` is the modification time of the cache entry, absent
/// when no entry exists; `now` is the present clock reading; all values in
/// seconds.
pub fn plan_download(cached_modified: Option<u64>, now: u64, timeout: u64) -> (r: Result<
    FetchDecision,
    RustReleasesError,
>)
    ensures
        r == spec_plan_download(cached_modified, now, timeout),
{
    match cached_modified {
        Some(modified) => {
            if modified > now {
                Err(RustReleasesError::SystemTime)
            } else if now - modified <= timeout {
                Ok(FetchDecision::UseCache)
            } else {
                Ok(FetchDecision::Download)
            }
        },
        None => Ok(FetchDecision::Download),
    }
}

/// Fetching twice within the staleness window performs one download only:
/// once a download has written the cache entry, a second fetch of the same
/// key whose clock reading lies within the timeout decides to reuse the
/// cache, so no second network request occurs.
pub proof fn lemma_cache_fetch_idempotent(written_at: u64, now: u64, timeout: u64)
    requires
        written_at <= now,
        now - written_at <= timeout,
    ensures
        spec_plan_download(Some(written_at), now, timeout) == Ok::<
            FetchDecision,
            RustReleasesError,
        >(FetchDecision::UseCache),
{
}

/// Both sides of the staleness boundary: an entry strictly younger than the
/// timeout is reused, one strictly older is re-fetched. An entry whose age
/// equals the timeout exactly is excluded here: the fetch treats it as still
/// fresh.
pub proof fn lemma_staleness_boundary(modified: u64, now: u64, timeout: u64)
    requires
        modified <= now,
        now - modified != timeout,
    ensures
        now - modified < timeout ==> spec_plan_download(Some(modified), now, timeout) == Ok::<
            FetchDecision,
            RustReleasesError,
        >(FetchDecision::UseCache),
        now - modified > timeout ==> spec_plan_download(Some(modified), now, timeout) == Ok::<
            FetchDecision,
            RustReleasesError,
        >(FetchDecision::Download),
{
}

/// The cache file name of a dated release manifest:
/// `<channel>_<date>.toml`.
pub open spec fn spec_manifest_file_name(channel: Channel, date: Seq<char>) -> Seq<char> {
    channel.spec_name() + "_"@ + date + ".toml"@
}

/// Derives the deterministic cache file name of a release manifest from its
/// channel and date: `<channel>_<date>.toml`.
pub fn manifest_file_name(source: &ManifestSource) -> (r: String)
    ensures
        r@ == spec_manifest_file_name(source.channel, source.date@),
{
    let mut name = source.channel.name();
    name.append("_");
    name.append(source.date.as_str());
    name.append(".toml");
    name
}

/// One remote resource a channel needs: where to fetch it and under which
/// cache file name to store it.
#[derive(Debug, PartialEq, Eq)]
pub struct FetchRequest {
    pub channel: Channel,
    pub url: String,
    pub cache_key: String,
}

/// The descriptors of the meta manifest that carry the given channel tag.
pub open spec fn channel_pred(channel: Channel) -> spec_fn(ManifestSource) -> bool {
    |s: ManifestSource| s.channel == channel
}

/// Resolves which remote resources must be fetched for the requested
/// channel: exactly the meta manifest's descriptors tagged with that
/// channel, in document order, each with its deterministic cache file name.
/// No descriptor of another channel is ever returned.
pub fn release_manifest_requests(meta: &MetaManifest, channel: Channel) -> (r: Vec<FetchRequest>)
    ensures
        r@.len() == meta@.filter(channel_pred(channel)).len(),
        forall|i: int|
            0 <= i < r@.len() ==> {
                let picked = meta@.filter(channel_pred(channel))[i];
                (#[trigger] r@[i]).channel == channel && r@[i].url@ == picked.url@
                    && r@[i].cache_key@ == spec_manifest_file_name(picked.channel, picked.date@)
            },
{
    let ghost pred = channel_pred(channel);
    let sources = meta.manifests();
    let mut out: Vec<FetchRequest> = Vec::new();
    let mut i: usize = 0;
    while i < sources.len()
        invariant
            i <= sources@.len(),
            sources@ == meta@,
            pred == channel_pred(channel),
            out@.len() == meta@.take(i as int).filter(pred).len(),
            forall|k: int|
                0 <= k < out@.len() ==> {
                    let picked = meta@.take(i as int).filter(pred)[k];
                    (#[trigger] out@[k]).channel == channel && out@[k].url@ == picked.url@
                        && out@[k].cache_key@ == spec_manifest_file_name(
                        picked.channel,
                        picked.date@,
                    )
                },
        decreases sources@.len() - i,
    {
        let source = &sources[i];
        proof {
            reveal_with_fuel(Seq::filter, 2);
            assert(meta@.take(i + 1 as int) =~= meta@.take(i as int) + seq![meta@[i as int]]);
            Seq::filter_distributes_over_add(meta@.take(i as int), seq![meta@[i as int]], pred);
            assert(seq![meta@[i as int]].drop_last() =~= Seq::<ManifestSource>::empty());
            if pred(meta@[i as int]) {
                assert(seq![meta@[i as int]].filter(pred) =~= seq![meta@[i as int]]);
            } else {
                assert(seq![meta@[i as int]].filter(pred) =~= Seq::<ManifestSource>::empty());
            }
        }
        if source.channel() == channel {
            let key = manifest_file_name(source);
            let url = source.url().clone();
            out.push(FetchRequest { channel, url, cache_key: key });
        }
        i += 1;
    }
    proof {
        assert(meta@.take(meta@.len() as int) =~= meta@);
    }
    out
}

/// Collapses the per-resource outcomes of a resolution into one outcome:
/// all fetched documents in order when every fetch succeeded, and the first
/// failure otherwise — a single failing fetch aborts the whole resolution,
/// and no partial result is returned.
pub fn collect_sources(results: &mut Vec<Result<DocumentSource, RustReleasesError>>) -> (r:
    Result<Vec<DocumentSource>, RustReleasesError>)
    ensures
        r is Ok <==> (forall|i: int|
            0 <= i < old(results)@.len() ==> (#[trigger] old(results)@[i]) is Ok),
        r matches Ok(docs) ==> docs@.len() == old(results)@.len() && (forall|i: int|
            0 <= i < old(results)@.len() ==> ((#[trigger] old(results)@[i]) matches Ok(d)
                && docs@[i] == d)),
        r matches Err(e) ==> exists|i: int|
            0 <= i < old(results)@.len() && ((#[trigger] old(results)@[i]) matches Err(e0) && e
                == e0) && (forall|k: int| 0 <= k < i ==> (#[trigger] old(results)@[k]) is Ok),
        r is Ok ==> final(results)@.len() == 0,
        final(results)@.len() <= old(results)@.len(),
{
    let mut docs: Vec<DocumentSource> = Vec::new();
    while results.len() > 0
        invariant
            docs@.len() + results@.len() == old(results)@.len(),
            results@ == old(results)@.subrange(docs@.len() as int, old(results)@.len() as int),
            forall|k: int|
                0 <= k < docs@.len() ==> ((#[trigger] old(results)@[k]) matches Ok(d) && docs@[k]
                    == d),
        decreases results@.len(),
    {
        let ghost i = docs@.len() as int;
        let next = results.remove(0);
        proof {
            assert(next == old(results)@[i]);
            assert(results@ =~= old(results)@.subrange(i + 1, old(results)@.len() as int));
        }
        match next {
            Ok(doc) => {
                docs.push(doc);
            },
            Err(e) => {
                proof {
                    assert((old(results)@[i] matches Err(e0) && e == e0));
                    assert(forall|k: int| 0 <= k < i ==> (#[trigger] old(results)@[k]) is Ok);
                    assert(!(old(results)@[i] is Ok));
                    assert(exists|ii: int|
                        0 <= ii < old(results)@.len() && ((#[trigger] old(results)@[ii]) matches Err(
                        e0) && e == e0) && (forall|k: int|
                            0 <= k < ii ==> (#[trigger] old(results)@[k]) is Ok));
                }
                return Err(e);
            },
        }
    }
    Ok(docs)
}

} // verus!
