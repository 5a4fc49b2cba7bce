//! What a repository hands out when it is asked for the files of a version.

pub mod model;
