//! Values that hold for the whole crate. Each is the one source of what it
//! names.

use vstd::prelude::*;

verus! {

/// The name under which the ledger is stored.
pub const STATE_FILE_NAME: &'static str = "state";

/// The name of the collection that holds indexes and contents.
pub const BLOBS_DIR_NAME: &'static str = "blobs";

} // verus!
