//! Ingestion strategies: the concrete pipeline variants a release index can
//! be built through.

pub mod from_manifests;
