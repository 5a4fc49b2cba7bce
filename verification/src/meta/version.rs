//! A version: one entry of the ledger.

pub mod accessor;
pub mod model;
