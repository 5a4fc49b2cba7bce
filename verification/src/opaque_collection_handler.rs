//! The storage that a repository is built on.
//!
//! A collection holds files under names and knows nothing of what they are.
//! A file is the bytes that were last written to it. Any store that can tell
//! whether a name is taken, create a file, read one and write one will do:
//! a directory, a server, or the memory of the process.

pub mod drivers;

use crate::error::{ErrorKind, FcResult, Payload};
use crate::text::{joined, owned_text};
use vstd::prelude::*;

verus! {

/// What an error carries when a collection holds no file under a name.
#[derive(Debug)]
pub struct PathDoesNotExistInCollectionPayload {
    pub collection_path: String,
    pub file_name: String,
}

impl Payload for PathDoesNotExistInCollectionPayload {
    open spec fn text(&self) -> Seq<char> {
        "Collection path: "@ + self.collection_path@ + ", file name: "@ + self.file_name@ + "."@
    }

    fn describe(&self) -> (r: String) {
        joined(
            joined(
                joined(
                    joined(owned_text("Collection path: "), self.collection_path.as_str()),
                    ", file name: ",
                ),
                self.file_name.as_str(),
            ),
            ".",
        )
    }
}

/// What an error carries when a name leads out of its collection.
#[derive(Debug)]
pub struct DoubleDotFileName {
    pub original_path: String,
}

impl Payload for DoubleDotFileName {
    open spec fn text(&self) -> Seq<char> {
        "Original path: "@ + self.original_path@
    }

    fn describe(&self) -> (r: String) {
        joined(owned_text("Original path: "), self.original_path.as_str())
    }
}

/// A collection of files of which nothing is known but their names and
/// their bytes.
///
/// A backend may fail for reasons of its own: a disk fills up, a server does
/// not answer. `reliable` says of a backend that it does not; the contracts
/// promise success for reliable backends only. Whatever the backend, a call
/// that returns `Ok` has done what its contract says, and a call that fails
/// has left every file but the one it was about as it was.
///
/// The library proves its own backend against these contracts. Of a backend
/// from elsewhere it believes them: what is proved of a repository holds as
/// far as its backends keep to them. Such a backend defines the eight
/// operations and leaves alone the four functions that the contracts are
/// stated over; it is then not taken to be reliable.
pub trait OpaqueCollectionHandler {
    /// The files of the collection: the bytes under each name.
    open spec fn files(&self) -> Map<Seq<char>, Seq<u8>> {
        arbitrary()
    }

    /// Whether the collection itself exists.
    open spec fn present(&self) -> bool {
        arbitrary()
    }

    /// Whether the backend fails for no reason but those that the contracts
    /// name.
    open spec fn reliable(&self) -> bool {
        false
    }

    /// What `get_debug_info_for_file` says of a name.
    open spec fn debug_info(&self, name: Seq<char>) -> Seq<char> {
        arbitrary()
    }

    /// Whether the collection holds a file under `name`.
    fn has_file(&self, name: &str) -> (r: FcResult<bool>)
        ensures
            r matches Ok(found) ==> found == self.files().contains_key(name@),
            self.reliable() ==> r is Ok,
    ;

    /// Creates an empty file under `name`, in place of any file that the
    /// collection held under that name.
    fn create_file(&mut self, name: &str) -> (r: FcResult<()>)
        ensures
            final(self).reliable() == old(self).reliable(),
            final(self).present() == old(self).present(),
            final(self).files().remove(name@) == old(self).files().remove(name@),
            r is Ok ==> final(self).files() == old(self).files().insert(name@, Seq::empty()),
            old(self).reliable() ==> r is Ok,
    ;

    /// The bytes of the file under `name`. Where the collection holds no
    /// such file it fails, on a reliable backend with the kind
    /// `PathDoesNotExistInCollection`.
    fn read_file(&self, name: &str) -> (r: FcResult<Vec<u8>>)
        ensures
            match r {
                Ok(bytes) => self.files().contains_key(name@) && bytes@ == self.files()[name@],
                Err(e) => self.reliable() ==> !self.files().contains_key(name@) && e.kind
                    == ErrorKind::PathDoesNotExistInCollection && e.wrapped is None,
            },
    ;

    /// Makes `bytes` the bytes of the file under `name`. Where the
    /// collection holds no such file it fails, on a reliable backend with
    /// the kind `PathDoesNotExistInCollection`, and changes nothing.
    fn write_file(&mut self, name: &str, bytes: &[u8]) -> (r: FcResult<()>)
        ensures
            final(self).reliable() == old(self).reliable(),
            final(self).present() == old(self).present(),
            final(self).files().remove(name@) == old(self).files().remove(name@),
            match r {
                Ok(_) => old(self).files().contains_key(name@) && final(self).files() == old(
                    self,
                ).files().insert(name@, bytes@),
                Err(e) => old(self).reliable() ==> !old(self).files().contains_key(name@)
                    && final(self).files() == old(self).files() && e.kind
                    == ErrorKind::PathDoesNotExistInCollection && e.wrapped is None,
            },
    ;

    /// Whether the collection itself exists.
    fn collection_exists(&self) -> (r: bool)
        ensures
            self.reliable() ==> r == self.present(),
    ;

    /// Creates the collection. It fails where the collection exists.
    fn create_collection(&mut self) -> (r: FcResult<()>)
        ensures
            final(self).reliable() == old(self).reliable(),
            final(self).files() == old(self).files(),
            match r {
                Ok(_) => !old(self).present() && final(self).present(),
                Err(e) => final(self).present() == old(self).present() && (old(self).reliable()
                    ==> old(self).present()),
            },
    ;

    /// Creates the collection unless it exists.
    fn create_collection_ignore_exists(&mut self) -> (r: FcResult<()>)
        ensures
            final(self).reliable() == old(self).reliable(),
            final(self).files() == old(self).files(),
            match r {
                Ok(_) => final(self).present(),
                Err(e) => final(self).present() == old(self).present() && !old(self).reliable(),
            },
    ;

    /// A text that says what the collection takes `name` for. It is meant
    /// for messages of errors that arise where the inside of the collection
    /// cannot be seen.
    ///
    /// The text may give away where the collection lies. Do not show it to
    /// those who must not know.
    fn get_debug_info_for_file(&self, name: &str) -> (r: String)
        ensures
            r@ == self.debug_info(name@),
    ;
}

} // verus!
