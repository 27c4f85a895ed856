//! The unified error taxonomy: every layer of the ingestion pipeline surfaces
//! its failures through [`RustReleasesError`], so a caller of the top-level
//! entry points sees a single typed error identifying the deepest cause.

use vstd::prelude::*;

use crate::source::rust_dist_with_cli::DistIndexError;
use crate::strategy::from_manifests::FromManifestsError;

verus! {

/// The result type used throughout the library.
pub type TResult<T> = Result<T, RustReleasesError>;

/// Top level failure cases for rust-releases.
#[derive(Debug)]
pub enum RustReleasesError {
    /// The platform cache directory could not be resolved.
    DlCache,
    /// A filesystem read, write or create failed; the payload describes it.
    Io(String),
    /// An HTTP request failed in transport or returned a non-success status;
    /// the payload describes it.
    Network(String),
    /// A requested release channel name was not recognised.
    NoSuchChannel(String),
    /// The clock went backward: a cache entry appears younger than the
    /// present, so its age cannot be computed.
    SystemTime,
    /// A failure of the flat directory-listing source.
    DistIndexError(DistIndexError),
    /// A failure of the manifest-based strategy.
    FromManifestsError(FromManifestsError),
}

} // verus!
