use crate::error::Payload;
use crate::meta::version::model::Version;
use crate::text::{joined, owned_text};
use vstd::prelude::*;

verus! {

/// What an error carries when a version was to be added under an id that
/// the ledger already holds.
#[derive(Debug)]
pub struct VersionEntryAlreadyExistsErrorPayload {
    pub version_id: String,
    pub version_struct: Version,
}

/// What an error carries when the ledger holds no version under an id.
#[derive(Debug)]
pub struct VersionEntryDoesNotExistErrorPayload {
    pub version_id: String,
}

/// What an error says of an id that is taken.
pub open spec fn already_exists_text(id: Seq<char>) -> Seq<char> {
    "An entry for version \""@ + id + "\" already exists."@
}

/// What an error says of an id under which there is no version.
pub open spec fn does_not_exist_text(id: Seq<char>) -> Seq<char> {
    "Error: There's no entry for version \""@ + id + "\"."@
}

impl Payload for VersionEntryAlreadyExistsErrorPayload {
    open spec fn text(&self) -> Seq<char> {
        already_exists_text(self.version_id@)
    }

    fn describe(&self) -> (r: String) {
        joined(
            joined(owned_text("An entry for version \""), self.version_id.as_str()),
            "\" already exists.",
        )
    }
}

impl Payload for VersionEntryDoesNotExistErrorPayload {
    open spec fn text(&self) -> Seq<char> {
        does_not_exist_text(self.version_id@)
    }

    fn describe(&self) -> (r: String) {
        joined(
            joined(owned_text("Error: There's no entry for version \""), self.version_id.as_str()),
            "\".",
        )
    }
}

} // verus!
