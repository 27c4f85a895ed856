//! A library that determines the set of released versions of the Rust
//! toolchain by normalizing several upstream data sources into one canonical,
//! sorted, deduplicated release index.
//!
//! The verified core covers the release index construction, the staleness
//! decision of the download cache, the resolution of per-channel manifest
//! sources, and the per-source extraction of version records from raw bytes.
//! Filesystem and network access live outside this crate and hand plain
//! values (byte buffers, paths as strings, clock readings) in and out.

pub mod channel;
pub mod dl;
pub mod errors;
pub mod index;
pub mod manifests;
pub mod release;
mod text;
pub mod source;
pub mod strategy;

pub use channel::Channel;
pub use dl::DocumentSource;
pub use errors::{RustReleasesError, TResult};
pub use index::ReleaseIndex;
pub use release::{Release, Version};
