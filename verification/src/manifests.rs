//! The meta manifest (index-of-indices): the upstream document that lists
//! where each dated, per-channel release manifest can be found.

use vstd::prelude::*;
use vstd::string::StringExecFns;

use crate::channel::Channel;
use crate::errors::{RustReleasesError, TResult};
use crate::release::{decoded_utf8, utf8_to_str};
use crate::strategy::from_manifests::FromManifestsError;
use crate::text::{copy_range, line_end, skip_ws, spec_line_end, spec_skip_ws};

verus! {

/// One entry of the meta manifest: identifies a single per-channel,
/// per-date release manifest by its channel tag, its publication date and
/// the url it can be fetched from.
#[derive(Debug, PartialEq, Eq)]
pub struct ManifestSource {
    pub channel: Channel,
    pub date: String,
    pub url: String,
}

impl ManifestSource {
    /// Builds a descriptor from its parts.
    pub fn new(channel: Channel, date: String, url: String) -> (r: ManifestSource)
        ensures
            r.channel == channel,
            r.date == date,
            r.url == url,
    {
        ManifestSource { channel, date, url }
    }

    /// The channel this manifest belongs to.
    pub fn channel(&self) -> (r: Channel)
        ensures
            r == self.channel,
    {
        self.channel
    }

    /// The publication date of this manifest.
    pub fn date(&self) -> (r: &String)
        ensures
            r == &self.date,
    {
        &self.date
    }

    /// The url the manifest can be fetched from.
    pub fn url(&self) -> (r: &String)
        ensures
            r == &self.url,
    {
        &self.url
    }
}

/// The parsed meta manifest: the ordered sequence of manifest source
/// descriptors, in document order.
#[derive(Debug, PartialEq, Eq)]
pub struct MetaManifest {
    sources: Vec<ManifestSource>,
}

impl View for MetaManifest {
    type V = Seq<ManifestSource>;

    closed spec fn view(&self) -> Seq<ManifestSource> {
        self.sources@
    }
}

impl MetaManifest {
    /// Builds a meta manifest from an already-parsed descriptor sequence,
    /// keeping document order.
    pub fn from_sources(sources: Vec<ManifestSource>) -> (r: MetaManifest)
        ensures
            r@ == sources@,
    {
        MetaManifest { sources }
    }

    /// All manifest source descriptors, in document order.
    pub fn manifests(&self) -> (r: &Vec<ManifestSource>)
        ensures
            r@ == self@,
    {
        &self.sources
    }

    /// Parses the meta manifest document. Each non-empty line names one
    /// dated release manifest by its url, of the shape
    /// `<...>/<date>/channel-rust-<channel>.toml`; the first malformed line
    /// aborts the parse with its error, and on success the descriptors keep
    /// document order.
    pub fn try_from_bytes(contents: &Vec<u8>) -> (r: TResult<MetaManifest>)
        ensures
            r is Ok <==> spec_meta_sources(contents@, 0) is Ok,
            r matches Err(e) ==> spec_meta_sources(contents@, 0) == Err::<
                Seq<(Channel, Seq<u8>, Seq<u8>)>,
                RustReleasesError,
            >(e),
            r matches Ok(meta) ==> (spec_meta_sources(contents@, 0) matches Ok(srcs)
                && meta@.len() == srcs.len() && (forall|k: int|
                0 <= k < srcs.len() ==> (#[trigger] meta@[k]).channel == srcs[k].0
                    && decoded_utf8(srcs[k].1) == Some(meta@[k].date@) && decoded_utf8(srcs[k].2)
                    == Some(meta@[k].url@))),
    {
        let mut sources: Vec<ManifestSource> = Vec::new();
        let mut pos: usize = 0;
        while pos < contents.len()
            invariant
                pos <= contents@.len(),
                spec_meta_sources(contents@, pos as int) matches Err(e) ==> spec_meta_sources(
                    contents@,
                    0,
                ) == Err::<Seq<(Channel, Seq<u8>, Seq<u8>)>, RustReleasesError>(e),
                spec_meta_sources(contents@, pos as int) matches Ok(rest) ==> (spec_meta_sources(
                    contents@,
                    0,
                ) matches Ok(all) && all.len() == sources@.len() + rest.len() && (forall|k: int|
                    0 <= k < sources@.len() ==> (#[trigger] all[k]).0 == sources@[k].channel
                        && decoded_utf8(all[k].1) == Some(sources@[k].date@) && decoded_utf8(
                        all[k].2,
                    ) == Some(sources@[k].url@)) && (forall|k: int|
                    0 <= k < rest.len() ==> all[sources@.len() + k] == #[trigger] rest[k])),
            decreases contents@.len() - pos,
        {
            let j = line_end(contents, pos);
            proof {
                crate::text::lemma_line_end(contents@, pos as int);
            }
            let line = copy_range(contents, pos, j);
            let parsed = line_source(&line);
            let ghost s = contents@;
            let ghost p = pos as int;
            let ghost jj = j as int;
            let ghost linespec = spec_line_source(s.subrange(p, jj));
            let ghost rest1: Result<Seq<(Channel, Seq<u8>, Seq<u8>)>, RustReleasesError> = if jj
                + 1 <= s.len() {
                spec_meta_sources(s, jj + 1)
            } else {
                Ok(Seq::empty())
            };
            proof {
                assert(spec_meta_sources(s, p) == (match linespec {
                    Err(e) => Err::<Seq<(Channel, Seq<u8>, Seq<u8>)>, RustReleasesError>(e),
                    Ok(None) => rest1,
                    Ok(Some(src)) => match rest1 {
                        Ok(rs) => Ok::<Seq<(Channel, Seq<u8>, Seq<u8>)>, RustReleasesError>(
                            seq![src] + rs,
                        ),
                        Err(e) => Err(e),
                    },
                }));
            }
            let ghost old_sources = sources@;
            match parsed {
                Ok(Some(source)) => {
                    proof {
                        assert((linespec matches Ok(Some(st)) && source.channel == st.0
                            && decoded_utf8(st.1) == Some(source.date@) && decoded_utf8(st.2)
                            == Some(source.url@)));
                    }
                    sources.push(source);
                },
                Ok(None) => {},
                Err(e) => {
                    proof {
                        assert(spec_meta_sources(s, p) == Err::<
                            Seq<(Channel, Seq<u8>, Seq<u8>)>,
                            RustReleasesError,
                        >(e));
                    }
                    return Err(e);
                },
            }
            if j < contents.len() {
                pos = j + 1;
            } else {
                pos = j;
            }
            proof {
                if jj == s.len() {
                    assert(spec_meta_sources(s, pos as int) == Ok::<
                        Seq<(Channel, Seq<u8>, Seq<u8>)>,
                        RustReleasesError,
                    >(Seq::<(Channel, Seq<u8>, Seq<u8>)>::empty()));
                }
                assert(spec_meta_sources(s, pos as int) == rest1);
                if rest1 is Ok && linespec is Ok && linespec->Ok_0 is Some {
                    let rest = rest1->Ok_0;
                    let st = linespec->Ok_0->Some_0;
                    {
                        let all = spec_meta_sources(s, 0)->Ok_0;
                        assert(spec_meta_sources(s, p) == Ok::<
                            Seq<(Channel, Seq<u8>, Seq<u8>)>,
                            RustReleasesError,
                        >(seq![st] + rest));
                        assert(spec_meta_sources(s, 0) is Ok);
                        assert(all.len() == old_sources.len() + (seq![st] + rest).len());
                        assert(sources@.len() == old_sources.len() + 1);
                        assert(all[old_sources.len() as int] == (seq![st] + rest)[0]);
                        assert(all[old_sources.len() as int] == st);
                        assert forall|k: int| 0 <= k < sources@.len() implies (#[trigger] all[k]).0
                            == sources@[k].channel && decoded_utf8(all[k].1) == Some(
                            sources@[k].date@,
                        ) && decoded_utf8(all[k].2) == Some(sources@[k].url@) by {
                            if k < old_sources.len() {
                                assert(sources@[k] == old_sources[k]);
                            } else {
                                assert(sources@[k] == sources@.last());
                                assert(all[k] == st);
                            }
                        }
                        assert forall|k: int| 0 <= k < rest.len() implies all[sources@.len() + k]
                            == #[trigger] rest[k] by {
                            assert(all[old_sources.len() + (1 + k)] == (seq![st] + rest)[1 + k]);
                            assert((seq![st] + rest)[1 + k] == rest[k]);
                        }
                    }
                }
            }
        }
        proof {
            assert(spec_meta_sources(contents@, pos as int) == Ok::<
                Seq<(Channel, Seq<u8>, Seq<u8>)>,
                RustReleasesError,
            >(Seq::<(Channel, Seq<u8>, Seq<u8>)>::empty()));
        }
        Ok(MetaManifest { sources })
    }
}

/// The position of the last slash strictly before `i`, or `-1` when there
/// is none.
pub open spec fn spec_rfind_slash(s: Seq<u8>, i: int) -> int
    decreases i,
{
    if i <= 0 || i > s.len() {
        -1
    } else if s[i - 1] == 47 {
        i - 1
    } else {
        spec_rfind_slash(s, i - 1)
    }
}

/// Finds the last slash strictly before `i`.
fn rfind_slash(s: &Vec<u8>, i: usize) -> (r: Option<usize>)
    requires
        i <= s@.len(),
    ensures
        r matches Some(k) ==> spec_rfind_slash(s@, i as int) == k && k < i,
        r is None <==> spec_rfind_slash(s@, i as int) == -1,
    decreases i,
{
    if i == 0 {
        None
    } else if s[i - 1] == 47 {
        Some(i - 1)
    } else {
        rfind_slash(s, i - 1)
    }
}

/// Which channel a meta-manifest file name names: exactly
/// `channel-rust-<channel>.toml`.
pub open spec fn spec_channel_of_filename(fb: Seq<u8>) -> Option<Channel> {
    match decoded_utf8(fb) {
        Some(t) => if t == "channel-rust-stable.toml"@ {
            Some(Channel::Stable)
        } else if t == "channel-rust-beta.toml"@ {
            Some(Channel::Beta)
        } else if t == "channel-rust-nightly.toml"@ {
            Some(Channel::Nightly)
        } else {
            None
        },
        None => None,
    }
}

/// Decides which channel a meta-manifest file name names.
fn channel_of_filename(fb: &Vec<u8>) -> (r: Option<Channel>)
    ensures
        r == spec_channel_of_filename(fb@),
{
    match utf8_to_str(fb.as_slice()) {
        Some(t) => {
            let name = String::from_str(t);
            if name == String::from_str("channel-rust-stable.toml") {
                Some(Channel::Stable)
            } else if name == String::from_str("channel-rust-beta.toml") {
                Some(Channel::Beta)
            } else if name == String::from_str("channel-rust-nightly.toml") {
                Some(Channel::Nightly)
            } else {
                None
            }
        },
        None => None,
    }
}

/// A manifest date: ten bytes of the shape `YYYY-MM-DD`, digits except for
/// the two dashes.
pub open spec fn spec_is_date(d: Seq<u8>) -> bool {
    d.len() == 10 && (forall|k: int|
        0 <= k < 10 ==> (if k == 4 || k == 7 {
            d[k] == 45
        } else {
            48 <= #[trigger] d[k] <= 57
        }))
}

/// Decides whether a byte run is a manifest date of the shape `YYYY-MM-DD`.
fn is_date(d: &Vec<u8>) -> (r: bool)
    ensures
        r == spec_is_date(d@),
{
    if d.len() != 10 {
        return false;
    }
    let mut k: usize = 0;
    while k < 10
        invariant
            k <= 10,
            d@.len() == 10,
            forall|m: int|
                0 <= m < k ==> (if m == 4 || m == 7 {
                    d@[m] == 45
                } else {
                    48 <= #[trigger] d@[m] <= 57
                }),
        decreases 10 - k,
    {
        if k == 4 || k == 7 {
            if d[k] != 45 {
                return false;
            }
        } else {
            if d[k] < 48 || d[k] > 57 {
                return false;
            }
        }
        k += 1;
    }
    true
}

/// What one meta-manifest line contributes: nothing for a blank line;
/// otherwise the channel named by the line's file name (after the last
/// slash), the date segment standing before that file name, and the whole
/// line as the url — or the error naming what was malformed.
pub open spec fn spec_line_source(line: Seq<u8>) -> Result<
    Option<(Channel, Seq<u8>, Seq<u8>)>,
    RustReleasesError,
> {
    if spec_skip_ws(line, 0) >= line.len() {
        Ok(None)
    } else {
        let p2 = spec_rfind_slash(line, line.len() as int);
        if p2 < 0 {
            Err(RustReleasesError::FromManifestsError(FromManifestsError::ParseManifestSource))
        } else {
            match spec_channel_of_filename(line.subrange(p2 + 1, line.len() as int)) {
                None => Err(
                    RustReleasesError::FromManifestsError(
                        FromManifestsError::ParseManifestSource,
                    ),
                ),
                Some(channel) => {
                    let p1 = spec_rfind_slash(line, p2);
                    let date = line.subrange(p1 + 1, p2);
                    if !spec_is_date(date) {
                        Err(
                            RustReleasesError::FromManifestsError(
                                FromManifestsError::ParseManifestDate,
                            ),
                        )
                    } else if decoded_utf8(date) is None || decoded_utf8(line) is None {
                        Err(
                            RustReleasesError::FromManifestsError(
                                FromManifestsError::ParseMetaManifest,
                            ),
                        )
                    } else {
                        Ok(Some((channel, date, line)))
                    }
                },
            }
        }
    }
}

/// Parses one meta-manifest line into a descriptor, a blank-line skip, or
/// an error.
fn line_source(line: &Vec<u8>) -> (r: Result<Option<ManifestSource>, RustReleasesError>)
    ensures
        r is Ok <==> spec_line_source(line@) is Ok,
        r matches Err(e) ==> spec_line_source(line@) == Err::<
            Option<(Channel, Seq<u8>, Seq<u8>)>,
            RustReleasesError,
        >(e),
        r matches Ok(o) ==> (spec_line_source(line@) matches Ok(so) && (o is Some <==> so is Some)
            && (o matches Some(src) ==> (so matches Some(st) && src.channel == st.0 && decoded_utf8(
            st.1,
        ) == Some(src.date@) && decoded_utf8(st.2) == Some(src.url@)))),
{
    let t = skip_ws(line, 0);
    if t >= line.len() {
        return Ok(None);
    }
    let p2 = match rfind_slash(line, line.len()) {
        Some(p) => p,
        None => {
            return Err(
                RustReleasesError::FromManifestsError(FromManifestsError::ParseManifestSource),
            );
        },
    };
    let filename = copy_range(line, p2 + 1, line.len());
    let channel = match channel_of_filename(&filename) {
        Some(c) => c,
        None => {
            return Err(
                RustReleasesError::FromManifestsError(FromManifestsError::ParseManifestSource),
            );
        },
    };
    let p1 = match rfind_slash(line, p2) {
        Some(p) => p + 1,
        None => 0,
    };
    let date_bytes = copy_range(line, p1, p2);
    if !is_date(&date_bytes) {
        return Err(
            RustReleasesError::FromManifestsError(FromManifestsError::ParseManifestDate),
        );
    }
    let date = match utf8_to_str(date_bytes.as_slice()) {
        Some(d) => String::from_str(d),
        None => {
            return Err(
                RustReleasesError::FromManifestsError(FromManifestsError::ParseMetaManifest),
            );
        },
    };
    let url = match utf8_to_str(line.as_slice()) {
        Some(u) => String::from_str(u),
        None => {
            return Err(
                RustReleasesError::FromManifestsError(FromManifestsError::ParseMetaManifest),
            );
        },
    };
    Ok(Some(ManifestSource { channel, date, url }))
}

/// The descriptors of the whole meta manifest from position `i` on, over
/// the raw bytes: each non-blank line's contribution in document order, or
/// the first line's error.
pub open spec fn spec_meta_sources(s: Seq<u8>, i: int) -> Result<
    Seq<(Channel, Seq<u8>, Seq<u8>)>,
    RustReleasesError,
>
    decreases s.len() - i when i >= 0 via spec_meta_sources_decreases
{
    if i >= s.len() {
        Ok(Seq::empty())
    } else {
        let j = spec_line_end(s, i);
        let rest = if j + 1 <= s.len() {
            spec_meta_sources(s, j + 1)
        } else {
            Ok(Seq::<(Channel, Seq<u8>, Seq<u8>)>::empty())
        };
        match spec_line_source(s.subrange(i, j)) {
            Err(e) => Err(e),
            Ok(None) => rest,
            Ok(Some(src)) => match rest {
                Ok(rs) => Ok(seq![src] + rs),
                Err(e) => Err(e),
            },
        }
    }
}

#[via_fn]
proof fn spec_meta_sources_decreases(s: Seq<u8>, i: int) {
    if 0 <= i < s.len() {
        crate::text::lemma_line_end(s, i);
    }
}

} // verus!
