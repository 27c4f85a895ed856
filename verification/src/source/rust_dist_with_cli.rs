//! A source which parses Rust release data from the flat object-storage
//! directory listing (the S3 index). The input data file is obtained by the
//! caller separately, e.g. with a storage CLI utility; this source then
//! performs line-oriented extraction of version-looking tokens, skipping
//! non-matching lines rather than failing the whole build.

use vstd::prelude::*;

use crate::errors::{RustReleasesError, TResult};
use crate::index::{contains_version, strictly_sorted, ReleaseIndex};
use crate::release::{decoded_utf8, parse_version_bytes, utf8_to_str, version_of_bytes, Release,
    Version};
use crate::source::Document;
use crate::text::{copy_range, field_start, line_end, skip_ws, spec_field_start, spec_line_end,
    spec_skip_ws, spec_token_end, token_end};

verus! {

/// The key of the version record a single listing line contributes, if
/// any. A line of the flat listing names one object of the distribution
/// bucket; its fourth whitespace-separated field is the object name. A
/// line marked as a sub-directory (its first field is `PRE`) contributes
/// nothing; an object name of the shape `rust-1...` contributes the text
/// between its first and second dash, parsed as a semantic version;
/// anything else, including a token that fails to parse, is skipped.
pub open spec fn spec_line_release(line: Seq<u8>) -> Option<(u64, u64, u64, Seq<u8>)> {
    let t = spec_skip_ws(line, 0);
    if t + 3 <= line.len() && line[t] == 80 && line[t + 1] == 82 && line[t + 2] == 69 {
        None
    } else {
        let a = spec_field_start(line, 0, 3);
        let b = spec_token_end(line, a);
        if a < line.len() && b - a >= 6 && line[a] == 114 && line[a + 1] == 117 && line[a + 2]
            == 115 && line[a + 3] == 116 && line[a + 4] == 45 && line[a + 5] == 49 {
            let vend = spec_dash_end(line, a + 5, b);
            version_of_bytes(line.subrange(a + 5, vend))
        } else {
            None
        }
    }
}

/// The position of the next dash at or after `i`, bounded by `b`.
pub open spec fn spec_dash_end(s: Seq<u8>, i: int, b: int) -> int
    decreases b - i,
{
    if i < b && 0 <= i < s.len() && s[i] != 45 {
        spec_dash_end(s, i + 1, b)
    } else {
        i
    }
}

/// The dash search stays within its bounds.
proof fn lemma_dash_end(s: Seq<u8>, i: int, b: int)
    requires
        0 <= i <= b <= s.len(),
    ensures
        i <= spec_dash_end(s, i, b) <= b,
    decreases b - i,
{
    if i < b && s[i] != 45 {
        lemma_dash_end(s, i + 1, b);
    }
}

/// Finds the next dash at or after `i`, bounded by `b`.
fn dash_end(s: &Vec<u8>, i: usize, b: usize) -> (r: usize)
    requires
        i <= b <= s@.len(),
    ensures
        r == spec_dash_end(s@, i as int, b as int),
        i <= r <= b,
    decreases b - i,
{
    proof {
        lemma_dash_end(s@, i as int, b as int);
    }
    if i < b && s[i] != 45 {
        dash_end(s, i + 1, b)
    } else {
        i
    }
}

/// Extracts the release a single listing line contributes, if any.
fn line_release(line: &Vec<u8>) -> (r: Option<Release>)
    ensures
        r matches Some(rel) ==> spec_line_release(line@) == Some(rel.version.key()),
        r is Some <==> spec_line_release(line@) is Some,
{
    let t = skip_ws(line, 0);
    if line.len() >= 3 && t <= line.len() - 3 && line[t] == 80 && line[t + 1] == 82 && line[t + 2]
        == 69 {
        return None;
    }
    let a = field_start(line, 0, 3);
    let b = token_end(line, a);
    if a < line.len() && b - a >= 6 && line[a] == 114 && line[a + 1] == 117 && line[a + 2] == 115
        && line[a + 3] == 116 && line[a + 4] == 45 && line[a + 5] == 49 {
        let vend = dash_end(line, a + 5, b);
        let token = copy_range(line, a + 5, vend);
        match parse_version_bytes(token.as_slice()) {
            Some(v) => Some(Release::new(v)),
            None => None,
        }
    } else {
        None
    }
}

/// The version keys that the listing's lines contribute, from position
/// `i` on, in line order.
pub open spec fn spec_listing_from(s: Seq<u8>, i: int) -> Seq<(u64, u64, u64, Seq<u8>)>
    decreases s.len() - i when i >= 0 via spec_listing_from_decreases
{
    if i >= s.len() {
        Seq::empty()
    } else {
        let j = spec_line_end(s, i);
        let rest = if j + 1 <= s.len() {
            spec_listing_from(s, j + 1)
        } else {
            Seq::empty()
        };
        match spec_line_release(s.subrange(i, j)) {
            Some(key) => seq![key] + rest,
            None => rest,
        }
    }
}

#[via_fn]
proof fn spec_listing_from_decreases(s: Seq<u8>, i: int) {
    if 0 <= i < s.len() {
        crate::text::lemma_line_end(s, i);
    }
}

/// The version keys that the whole flat listing contributes, in line
/// order.
pub open spec fn spec_listing_releases(s: Seq<u8>) -> Seq<(u64, u64, u64, Seq<u8>)> {
    spec_listing_from(s, 0)
}

/// The version keys of a release sequence, in order.
pub open spec fn version_keys_of(s: Seq<Release>) -> Seq<(u64, u64, u64, Seq<u8>)> {
    s.map_values(|r: Release| r.version.key())
}

/// A source which builds a release index from a pre-obtained plain-text
/// directory listing of the distribution bucket.
#[derive(Debug, PartialEq, Eq)]
pub struct RustDistWithCLI {
    source: Document,
}

impl RustDistWithCLI {
    /// Creates a `RustDistWithCLI` from a path to the listing file.
    pub fn from_path(path: String) -> (r: RustDistWithCLI)
        ensures
            r.document() == Document::LocalPath(path),
    {
        RustDistWithCLI { source: Document::LocalPath(path) }
    }

    /// Creates a `RustDistWithCLI` from an already-obtained document.
    pub fn from_document(source: Document) -> (r: RustDistWithCLI)
        ensures
            r.document() == source,
    {
        RustDistWithCLI { source }
    }

    /// The document this source reads its listing from.
    pub closed spec fn document(&self) -> Document {
        self.source
    }

    /// A borrow of the document this source reads its listing from.
    pub fn source_document(&self) -> (r: &Document)
        ensures
            r == self.document(),
    {
        &self.source
    }
}

impl RustDistWithCLI {
    /// Builds the release index from the raw bytes of a flat directory
    /// listing. The listing must be UTF-8 text; within it, every line is
    /// examined on its own, and a line that contributes no version is
    /// skipped rather than failing the build. The result holds exactly the
    /// versions the listing's lines contribute, deduplicated and sorted
    /// ascending.
    pub fn index_from_contents(contents: &Vec<u8>) -> (r: TResult<ReleaseIndex>)
        ensures
            r is Ok <==> decoded_utf8(contents@) is Some,
            r matches Err(e) ==> e == RustReleasesError::DistIndexError(
                DistIndexError::UnrecognizedText,
            ),
            r matches Ok(ix) ==> strictly_sorted(ix@) && (forall|v: Version|
                contains_version(ix@, v) <==> spec_listing_releases(contents@).contains(
                    v.key(),
                )),
    {
        if utf8_to_str(contents.as_slice()).is_none() {
            return Err(RustReleasesError::DistIndexError(DistIndexError::UnrecognizedText));
        }
        let ghost full = spec_listing_releases(contents@);
        let mut found: Vec<Release> = Vec::new();
        let mut pos: usize = 0;
        while pos < contents.len()
            invariant
                pos <= contents@.len(),
                full == spec_listing_releases(contents@),
                full =~= version_keys_of(found@) + spec_listing_from(contents@, pos as int),
            decreases contents@.len() - pos,
        {
            let j = line_end(contents, pos);
            proof {
                crate::text::lemma_line_end(contents@, pos as int);
            }
            let line = copy_range(contents, pos, j);
            let rel = line_release(&line);
            proof {
                assert(spec_listing_from(contents@, pos as int) == (match spec_line_release(
                    contents@.subrange(pos as int, j as int),
                ) {
                    Some(key0) => seq![key0] + (if j + 1 <= contents@.len() {
                        spec_listing_from(contents@, j + 1 as int)
                    } else {
                        Seq::<(u64, u64, u64, Seq<u8>)>::empty()
                    }),
                    None => (if j + 1 <= contents@.len() {
                        spec_listing_from(contents@, j + 1 as int)
                    } else {
                        Seq::<(u64, u64, u64, Seq<u8>)>::empty()
                    }),
                }));
            }
            match rel {
                Some(release) => {
                    proof {
                        assert(version_keys_of(found@.push(release)) =~= version_keys_of(
                            found@,
                        ).push(release.version.key()));
                    }
                    found.push(release);
                },
                None => {},
            }
            if j < contents.len() {
                pos = j + 1;
            } else {
                pos = j;
                proof {
                    assert(spec_listing_from(contents@, pos as int) =~= Seq::<
                        (u64, u64, u64, Seq<u8>),
                    >::empty());
                }
            }
        }
        proof {
            assert(spec_listing_from(contents@, pos as int) =~= Seq::<
                (u64, u64, u64, Seq<u8>),
            >::empty());
            assert(full =~= version_keys_of(found@));
        }
        let index = ReleaseIndex::from_releases(found);
        proof {
            assert forall|v: Version|
                contains_version(index@, v) <==> spec_listing_releases(contents@).contains(
                    v.key(),
                ) by {
                if contains_version(found@, v) {
                    let i = choose|i: int|
                        0 <= i < found@.len() && (#[trigger] found@[i]).version.key() == v.key();
                    assert(version_keys_of(found@)[i] == v.key());
                    assert(full.contains(v.key()));
                }
                if full.contains(v.key()) {
                    let i = choose|i: int| 0 <= i < full.len() && full[i] == v.key();
                    assert(version_keys_of(found@)[i] == found@[i].version.key());
                    assert(found@[i].version.key() == v.key());
                    assert(contains_version(found@, v));
                }
            }
        }
        Ok(index)
    }
}

/// Failure cases of the flat directory-listing source.
#[derive(Clone, Copy, Debug, PartialEq, Eq, Structural)]
pub enum DistIndexError {
    /// The listing was not valid UTF-8 text.
    UnrecognizedText,
}

} // verus!
