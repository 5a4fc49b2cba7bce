//! What is recorded of a path: that nothing is to exist there, or that a
//! directory, an ordinary file or a symlink is.
//!
//! Each kind has three forms. The trackable form is what a caller hands in.
//! The tracked form is what an index holds; for an ordinary file it adds the
//! content hash. The exported form is what a repository hands out; for an
//! ordinary file it adds the content itself.

pub mod aspects;
pub mod attributes;
pub mod enums;
