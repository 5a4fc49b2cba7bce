use crate::error::{ErrorPathBuf, Payload};
use crate::meta::index::Index;
use crate::text::{joined, owned_text};
use vstd::prelude::*;

verus! {

/// What an error carries when a path that is tracked was to be tracked:
/// the path, and the index as it was. The text of the payload shows the
/// path alone; the index may hold paths that are not for everyone to see.
#[derive(Debug)]
pub struct FileAlreadyTrackedErrorPayload {
    pub path: Vec<u8>,
    pub index_struct: Index,
}

/// What an error carries when a path is not tracked.
#[derive(Debug)]
pub struct UntrackedFileErrorPayload {
    pub path: Vec<u8>,
}

/// What an error says of a path that is tracked already.
pub open spec fn already_tracked_text(path: Seq<u8>) -> Seq<char> {
    "Error: The file at path \""@ + ErrorPathBuf::rendering(path) + "\" is already tracked."@
}

/// What an error says of a path that is not tracked.
pub open spec fn untracked_text(path: Seq<u8>) -> Seq<char> {
    "There is no file tracked for path \""@ + ErrorPathBuf::rendering(path) + "\"."@
}

impl Payload for FileAlreadyTrackedErrorPayload {
    open spec fn text(&self) -> Seq<char> {
        already_tracked_text(self.path@)
    }

    fn describe(&self) -> (r: String) {
        let shown = ErrorPathBuf::from_path(self.path.as_slice()).describe();
        joined(
            joined(owned_text("Error: The file at path \""), shown.as_str()),
            "\" is already tracked.",
        )
    }
}

impl Payload for UntrackedFileErrorPayload {
    open spec fn text(&self) -> Seq<char> {
        untracked_text(self.path@)
    }

    fn describe(&self) -> (r: String) {
        let shown = ErrorPathBuf::from_path(self.path.as_slice()).describe();
        joined(joined(owned_text("There is no file tracked for path \""), shown.as_str()), "\".")
    }
}

} // verus!
