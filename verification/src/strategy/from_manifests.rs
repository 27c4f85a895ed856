//! The manifest-based strategy: builds a release index from the dated
//! per-channel release manifests that the meta manifest points at, one
//! release per manifest document.

use vstd::prelude::*;

use crate::dl::DocumentSource;
use crate::errors::{RustReleasesError, TResult};
use crate::index::{contains_version, strictly_sorted, ReleaseIndex};
use crate::release::{decoded_utf8, parse_version_bytes, utf8_to_str, version_of_bytes, Release,
    Version};
use crate::text::{copy_range, line_end, skip_ws, spec_line_end, spec_skip_ws};

verus! {

/// The manifest-based strategy: holds one document per matched release
/// manifest; building the index parses each document into exactly one
/// release.
#[derive(Debug, PartialEq, Eq)]
pub struct FromManifests {
    documents: Vec<DocumentSource>,
}

impl FromManifests {
    /// Builds the strategy over already-obtained manifest documents.
    pub fn from_documents(documents: Vec<DocumentSource>) -> (r: FromManifests)
        ensures
            r@ == documents@,
    {
        FromManifests { documents }
    }

    /// The manifest documents this strategy builds from.
    pub fn documents(&self) -> (r: &Vec<DocumentSource>)
        ensures
            r@ == self@,
    {
        &self.documents
    }
}

impl View for FromManifests {
    type V = Seq<DocumentSource>;

    closed spec fn view(&self) -> Seq<DocumentSource> {
        self.documents@
    }
}

/// Whether a manifest line opens the section that carries the toolchain's
/// own version: after leading whitespace it reads `[pkg.rust]`.
pub open spec fn spec_is_section_line(line: Seq<u8>) -> bool {
    let t = spec_skip_ws(line, 0);
    t + 10 <= line.len() && line[t] == 91 && line[t + 1] == 112 && line[t + 2] == 107 && line[t
        + 3] == 103 && line[t + 4] == 46 && line[t + 5] == 114 && line[t + 6] == 117 && line[t + 7]
        == 115 && line[t + 8] == 116 && line[t + 9] == 93
}

/// Whether a manifest line is a version entry, and where its quoted value
/// begins: after leading whitespace it reads `version`, then an equals sign
/// and an opening double quote, each with optional whitespace before it.
pub open spec fn spec_version_value_start(line: Seq<u8>) -> Option<int> {
    let t = spec_skip_ws(line, 0);
    if t + 7 <= line.len() && line[t] == 118 && line[t + 1] == 101 && line[t + 2] == 114 && line[t
        + 3] == 115 && line[t + 4] == 105 && line[t + 5] == 111 && line[t + 6] == 110 {
        let e = spec_skip_ws(line, t + 7);
        if e < line.len() && line[e] == 61 {
            let q = spec_skip_ws(line, e + 1);
            if q < line.len() && line[q] == 34 {
                Some(q + 1)
            } else {
                None
            }
        } else {
            None
        }
    } else {
        None
    }
}

/// The end of the version text that starts at `i`: the next whitespace
/// byte, closing quote, or the end of the line. The quoted value of a
/// version entry carries the version first, then build metadata; only the
/// first run of it names the version.
pub open spec fn spec_value_token_end(s: Seq<u8>, i: int) -> int
    decreases s.len() - i,
{
    if 0 <= i < s.len() && s[i] != 34 && !crate::text::spec_is_ws(s[i]) {
        spec_value_token_end(s, i + 1)
    } else {
        i
    }
}

/// The version token a single manifest line carries, if it is a version
/// entry.
pub open spec fn spec_line_version_token(line: Seq<u8>) -> Option<Seq<u8>> {
    match spec_version_value_start(line) {
        Some(vs) => Some(line.subrange(vs, spec_value_token_end(line, vs))),
        None => None,
    }
}

/// The start of the first line after the first `[pkg.rust]` section line at
/// or after `i`, if such a section line exists.
pub open spec fn spec_find_section(s: Seq<u8>, i: int) -> Option<int>
    decreases s.len() - i when i >= 0 via spec_find_section_decreases
{
    if i >= s.len() {
        None
    } else {
        let j = spec_line_end(s, i);
        if spec_is_section_line(s.subrange(i, j)) {
            if j < s.len() {
                Some(j + 1)
            } else {
                Some(s.len() as int)
            }
        } else {
            if j + 1 <= s.len() {
                spec_find_section(s, j + 1)
            } else {
                None
            }
        }
    }
}

#[via_fn]
proof fn spec_find_section_decreases(s: Seq<u8>, i: int) {
    if 0 <= i < s.len() {
        crate::text::lemma_line_end(s, i);
    }
}

/// The version token of the first version entry at or after `i`, if one
/// exists.
pub open spec fn spec_find_version_token(s: Seq<u8>, i: int) -> Option<Seq<u8>>
    decreases s.len() - i when i >= 0 via spec_find_version_token_decreases
{
    if i >= s.len() {
        None
    } else {
        let j = spec_line_end(s, i);
        match spec_line_version_token(s.subrange(i, j)) {
            Some(tok) => Some(tok),
            None => if j + 1 <= s.len() {
                spec_find_version_token(s, j + 1)
            } else {
                None
            },
        }
    }
}

#[via_fn]
proof fn spec_find_version_token_decreases(s: Seq<u8>, i: int) {
    if 0 <= i < s.len() {
        crate::text::lemma_line_end(s, i);
    }
}

/// The version token of a whole release manifest: the first version entry
/// after the first `[pkg.rust]` section line.
pub open spec fn spec_manifest_version_token(s: Seq<u8>) -> Option<Seq<u8>> {
    match spec_find_section(s, 0) {
        Some(k) => spec_find_version_token(s, k),
        None => None,
    }
}

/// What parsing a release manifest yields: the key of the version the
/// manifest describes. The manifest must be UTF-8 text, must hold a
/// version entry after its `[pkg.rust]` section line, and the entry's
/// version text must be a semantic version; each failure has its own
/// error.
pub open spec fn spec_parse_release_manifest(s: Seq<u8>) -> Result<
    (u64, u64, u64, Seq<u8>),
    RustReleasesError,
> {
    if decoded_utf8(s) is None {
        Err(RustReleasesError::FromManifestsError(FromManifestsError::DeserializeToml))
    } else {
        match spec_manifest_version_token(s) {
            None => Err(
                RustReleasesError::FromManifestsError(
                    FromManifestsError::RustVersionNotFoundInManifest,
                ),
            ),
            Some(tok) => match version_of_bytes(tok) {
                None => Err(
                    RustReleasesError::FromManifestsError(FromManifestsError::ParseRustVersion),
                ),
                Some(t) => Ok(t),
            },
        }
    }
}

/// Decides whether a manifest line opens the `[pkg.rust]` section.
fn is_section_line(line: &Vec<u8>) -> (r: bool)
    ensures
        r == spec_is_section_line(line@),
{
    let t = skip_ws(line, 0);
    line.len() >= 10 && t <= line.len() - 10 && line[t] == 91 && line[t + 1] == 112 && line[t + 2]
        == 107 && line[t + 3] == 103 && line[t + 4] == 46 && line[t + 5] == 114 && line[t + 6]
        == 117 && line[t + 7] == 115 && line[t + 8] == 116 && line[t + 9] == 93
}

/// Finds the end of the version text that starts at `i`.
fn value_token_end(s: &Vec<u8>, i: usize) -> (r: usize)
    requires
        i <= s@.len(),
    ensures
        r == spec_value_token_end(s@, i as int),
        i <= r <= s@.len(),
    decreases s@.len() - i,
{
    if i < s.len() && s[i] != 34 && !crate::text::is_ws(s[i]) {
        value_token_end(s, i + 1)
    } else {
        i
    }
}

/// Extracts the version token of a single manifest line, if it is a
/// version entry.
fn line_version_token(line: &Vec<u8>) -> (r: Option<Vec<u8>>)
    ensures
        r matches Some(tok) ==> spec_line_version_token(line@) == Some(tok@),
        r is Some <==> spec_line_version_token(line@) is Some,
{
    let t = skip_ws(line, 0);
    if line.len() >= 7 && t <= line.len() - 7 && line[t] == 118 && line[t + 1] == 101 && line[t + 2]
        == 114 && line[t + 3] == 115 && line[t + 4] == 105 && line[t + 5] == 111 && line[t + 6]
        == 110 {
        let e = skip_ws(line, t + 7);
        if e < line.len() && line[e] == 61 {
            let q = skip_ws(line, e + 1);
            if q < line.len() && line[q] == 34 {
                let vend = value_token_end(line, q + 1);
                return Some(copy_range(line, q + 1, vend));
            }
        }
    }
    None
}

/// Parses one release manifest document into the version of the release it
/// describes. The manifest must be UTF-8 text holding a version entry after
/// its `[pkg.rust]` section line, whose version text is a semantic version;
/// otherwise the parse fails with the error naming what was wrong.
pub fn parse_release_manifest(contents: &Vec<u8>) -> (r: TResult<Version>)
    ensures
        r matches Ok(v) ==> spec_parse_release_manifest(contents@) == Ok::<
            (u64, u64, u64, Seq<u8>),
            RustReleasesError,
        >(v.key()),
        r is Ok <==> spec_parse_release_manifest(contents@) is Ok,
        r matches Err(e) ==> spec_parse_release_manifest(contents@) == Err::<
            (u64, u64, u64, Seq<u8>),
            RustReleasesError,
        >(e),
{
    if utf8_to_str(contents.as_slice()).is_none() {
        return Err(
            RustReleasesError::FromManifestsError(FromManifestsError::DeserializeToml),
        );
    }
    let mut pos: usize = 0;
    let mut after_section: Option<usize> = None;
    // find the first line after the first section line
    while pos < contents.len() && after_section.is_none()
        invariant
            pos <= contents@.len(),
            after_section matches Some(k) ==> spec_find_section(contents@, 0) == Some(
                k as int,
            ) && k <= contents@.len(),
            after_section is None ==> spec_find_section(contents@, 0) == spec_find_section(
                contents@,
                pos as int,
            ),
        decreases contents@.len() - pos, (if after_section is None {
            1int
        } else {
            0int
        }),
    {
        let j = line_end(contents, pos);
        proof {
            crate::text::lemma_line_end(contents@, pos as int);
        }
        let line = copy_range(contents, pos, j);
        if is_section_line(&line) {
            if j < contents.len() {
                after_section = Some(j + 1);
            } else {
                after_section = Some(contents.len());
            }
        } else {
            if j < contents.len() {
                pos = j + 1;
            } else {
                pos = j;
                proof {
                    assert(spec_find_section(contents@, pos as int) is None);
                }
            }
        }
    }
    let start = match after_section {
        Some(k) => k,
        None => {
            proof {
                assert(spec_find_section(contents@, pos as int) is None);
            }
            return Err(
                RustReleasesError::FromManifestsError(
                    FromManifestsError::RustVersionNotFoundInManifest,
                ),
            );
        },
    };
    // find the first version entry from there on
    let mut pos2: usize = start;
    while pos2 < contents.len()
        invariant
            pos2 <= contents@.len(),
            spec_find_version_token(contents@, start as int) == spec_find_version_token(
                contents@,
                pos2 as int,
            ),
            spec_find_section(contents@, 0) == Some(start as int),
            start <= contents@.len(),
            decoded_utf8(contents@) is Some,
        decreases contents@.len() - pos2,
    {
        let j = line_end(contents, pos2);
        proof {
            crate::text::lemma_line_end(contents@, pos2 as int);
        }
        let line = copy_range(contents, pos2, j);
        match line_version_token(&line) {
            Some(token) => {
                proof {
                    assert(spec_find_version_token(contents@, pos2 as int) == Some(token@));
                    assert(spec_manifest_version_token(contents@) == Some(token@));
                }
                match parse_version_bytes(token.as_slice()) {
                    Some(v) => {
                        return Ok(v);
                    },
                    None => {
                        return Err(
                            RustReleasesError::FromManifestsError(
                                FromManifestsError::ParseRustVersion,
                            ),
                        );
                    },
                }
            },
            None => {
                if j < contents.len() {
                    pos2 = j + 1;
                } else {
                    pos2 = j;
                    proof {
                        assert(spec_find_version_token(contents@, pos2 as int) is None);
                    }
                }
            },
        }
    }
    Err(RustReleasesError::FromManifestsError(FromManifestsError::RustVersionNotFoundInManifest))
}

impl FromManifests {
    /// Builds the release index from the loaded contents of the release
    /// manifests, one release per manifest document: every document must
    /// parse, the first parse failure aborts the whole build with that
    /// document's error, and on success the index holds exactly the parsed
    /// versions, deduplicated and sorted ascending.
    pub fn index_from_contents(documents: &Vec<Vec<u8>>) -> (r: TResult<ReleaseIndex>)
        ensures
            r is Ok <==> (forall|i: int|
                0 <= i < documents@.len() ==> (#[trigger] spec_parse_release_manifest(
                    documents@[i]@,
                )) is Ok),
            r matches Ok(ix) ==> strictly_sorted(ix@) && (forall|v: Version|
                contains_version(ix@, v) <==> exists|i: int|
                    0 <= i < documents@.len() && #[trigger] spec_parse_release_manifest(
                        documents@[i]@,
                    ) == Ok::<(u64, u64, u64, Seq<u8>), RustReleasesError>(v.key())),
            r matches Err(e) ==> exists|i: int|
                0 <= i < documents@.len() && #[trigger] spec_parse_release_manifest(documents@[i]@)
                    == Err::<(u64, u64, u64, Seq<u8>), RustReleasesError>(e) && (forall|k: int|
                    0 <= k < i ==> (#[trigger] spec_parse_release_manifest(documents@[k]@)) is Ok),
    {
        let mut releases: Vec<Release> = Vec::new();
        let mut i: usize = 0;
        while i < documents.len()
            invariant
                i <= documents@.len(),
                releases@.len() == i,
                forall|k: int|
                    0 <= k < i ==> (#[trigger] spec_parse_release_manifest(documents@[k]@))
                        == Ok::<(u64, u64, u64, Seq<u8>), RustReleasesError>(
                        releases@[k].version.key(),
                    ),
            decreases documents@.len() - i,
        {
            match parse_release_manifest(&documents[i]) {
                Ok(version) => {
                    releases.push(Release::new(version));
                },
                Err(e) => {
                    proof {
                        assert(spec_parse_release_manifest(documents@[i as int]@) == Err::<
                            (u64, u64, u64, Seq<u8>),
                            RustReleasesError,
                        >(e));
                    }
                    return Err(e);
                },
            }
            i += 1;
        }
        let index = ReleaseIndex::from_releases(releases);
        proof {
            assert forall|v: Version|
                contains_version(index@, v) <==> exists|k: int|
                    0 <= k < documents@.len() && #[trigger] spec_parse_release_manifest(
                        documents@[k]@,
                    ) == Ok::<(u64, u64, u64, Seq<u8>), RustReleasesError>(v.key()) by {
                if contains_version(index@, v) {
                    let k = choose|k: int|
                        0 <= k < releases@.len() && (#[trigger] releases@[k]).version.key()
                            == v.key();
                    assert(spec_parse_release_manifest(documents@[k]@) == Ok::<
                        (u64, u64, u64, Seq<u8>),
                        RustReleasesError,
                    >(v.key()));
                }
                if exists|k: int|
                    0 <= k < documents@.len() && #[trigger] spec_parse_release_manifest(
                        documents@[k]@,
                    ) == Ok::<(u64, u64, u64, Seq<u8>), RustReleasesError>(v.key()) {
                    let k = choose|k: int|
                        0 <= k < documents@.len() && #[trigger] spec_parse_release_manifest(
                            documents@[k]@,
                        ) == Ok::<(u64, u64, u64, Seq<u8>), RustReleasesError>(v.key());
                    assert(releases@[k].version.key() == v.key());
                    assert(contains_version(releases@, v));
                }
            }
        }
        Ok(index)
    }
}

/// Failure cases of the manifest-based strategy.
#[derive(Clone, Copy, Debug, PartialEq, Eq, Structural)]
pub enum FromManifestsError {
    /// A release manifest document was not well-formed manifest text.
    DeserializeToml,
    /// The meta manifest could not be parsed.
    ParseMetaManifest,
    /// A manifest date in the meta manifest could not be parsed.
    ParseManifestDate,
    /// A manifest source line of the meta manifest could not be parsed.
    ParseManifestSource,
    /// A version string in a release manifest was not a semantic version.
    ParseRustVersion,
    /// No Rust version was found in a release manifest.
    RustVersionNotFoundInManifest,
}

} // verus!
