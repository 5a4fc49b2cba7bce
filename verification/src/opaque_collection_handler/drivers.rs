//! The backends that the library itself provides.

pub mod memory;
