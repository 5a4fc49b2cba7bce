//! The data that a repository keeps: blobs, file aspects, indexes, versions
//! and the ledger of versions.

pub mod blob;

pub mod file_aspects;
pub mod state;
pub mod version;
pub mod index;
pub mod repo_exported_file_list;
