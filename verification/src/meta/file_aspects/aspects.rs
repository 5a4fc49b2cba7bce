//! The aspects of each kind of entry.

pub mod directory;
pub mod hardlink;
pub mod non_existing;
pub mod ordinary;
pub mod symlink;
