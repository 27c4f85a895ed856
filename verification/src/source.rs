//! Input documents for index construction, and the sources built on them.

use vstd::prelude::*;

pub mod rust_dist_with_cli;

verus! {

/// A `Document` represents a resource which can be used as an input to
/// construct a `ReleaseIndex`: the load-time description of exactly one
/// upstream resource.
#[derive(Debug, PartialEq, Eq)]
pub enum Document {
    /// The document is present on disk (e.g. pulled from the cache), at the
    /// given path, and is to be read from there on demand.
    LocalPath(String),
    /// The document has just been downloaded: the path is where its contents
    /// were written as cache, the buffer holds the contents themselves, so
    /// the fresh download does not have to be re-read from disk.
    RemoteCached(String, Vec<u8>),
}

impl Document {
    /// The in-memory contents, for a just-downloaded document; a document
    /// that lives on disk must be read from its path instead.
    pub fn cached_contents(&self) -> (r: Option<&Vec<u8>>)
        ensures
            r is Some <==> self is RemoteCached,
            r matches Some(c) ==> (self matches Document::RemoteCached(_, b) && c@ == b@),
    {
        match self {
            Document::LocalPath(_) => None,
            Document::RemoteCached(_, buffer) => Some(buffer),
        }
    }
}

} // verus!
