//! A content-addressed file cataloguing engine.
//!
//! A repository records, for a ledger of named versions, which paths existed
//! and what they were. Snapshots and file contents are stored under the
//! BLAKE3 hash of their canonical bytes, so equal content is stored once.

pub mod assoc;
pub mod codec;
pub mod error;
pub mod files;
pub mod globals;
pub mod journal;
pub mod meta;
pub mod opaque_collection_handler;
pub mod order;
pub mod repo;
pub mod text;
pub mod theorems;
