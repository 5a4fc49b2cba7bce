//! Blobs: the bytes of a stored object.

pub mod model;
pub mod repo_exported;
