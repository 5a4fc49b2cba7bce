use crate::error::{ErrorKind, FcResult};
use crate::files::content_addressed::{put_bytes, with_object, Objects};
use crate::files::hashable::content_hash;
use crate::files::tracked_ordinary_blob::TrackedOrdinaryBlobFile;
use crate::files::RepoFileCollection;
use crate::opaque_collection_handler::OpaqueCollectionHandler;
use vstd::prelude::*;

verus! {

/// The collection of the contents of the ordinary files of a repository.
/// A content stands under the hash of its bytes.
pub trait TrackedOrdinaryBlobFileCollection {
    /// The bytes that the collection holds under each hash.
    open spec fn stored(&self) -> Objects {
        arbitrary()
    }

    /// Whether the backend of the collection is reliable.
    open spec fn reliable(&self) -> bool {
        false
    }

    /// Whether the collection holds a content under `hash`.
    fn has_file(&self, hash: &str) -> (r: FcResult<bool>)
        ensures
            r matches Ok(found) ==> found == self.stored().contains_key(hash@),
            self.reliable() ==> r is Ok,
    ;

    /// The content that the collection holds under `hash`. Where it holds
    /// none it fails, on a reliable backend with the kind
    /// `PathDoesNotExistInCollection`.
    fn get_file(&self, hash: &str) -> (r: FcResult<Box<TrackedOrdinaryBlobFile>>)
        ensures
            match r {
                Ok(file) => self.stored().contains_key(hash@) && file.blob@
                    == self.stored()[hash@],
                Err(e) => self.reliable() ==> !self.stored().contains_key(hash@) && e.kind
                    == ErrorKind::PathDoesNotExistInCollection && e.wrapped is None,
            },
    ;

    /// Puts the content into the collection under the hash of its bytes and
    /// returns the hash. Putting a content that is there already writes
    /// nothing and succeeds.
    ///
    /// On a reliable backend it succeeds. Whatever happens, no object that
    /// the collection held is changed.
    fn put_file(&mut self, tracked_file: &TrackedOrdinaryBlobFile) -> (r: FcResult<String>)
        ensures
            final(self).reliable() == old(self).reliable(),
            final(self).stored().remove(content_hash(tracked_file.blob@))
                == old(self).stored().remove(content_hash(tracked_file.blob@)),
            old(self).stored().contains_key(content_hash(tracked_file.blob@))
                ==> final(self).stored() == old(self).stored(),
            match r {
                Ok(hash) => hash@ == content_hash(tracked_file.blob@) && final(self).stored()
                    == with_object(old(self).stored(), tracked_file.blob@),
                Err(e) => !old(self).reliable(),
            },
    ;
}

/// A collection of contents on any backend.
pub struct MiscTrackedOrdinaryBlobFileCollection<Handler: OpaqueCollectionHandler> {
    pub handler: Handler,
}

impl<Handler: OpaqueCollectionHandler> MiscTrackedOrdinaryBlobFileCollection<Handler> {
    /// The collection of the contents that `handler` holds.
    pub fn new(handler: Handler) -> (r: Self)
        ensures
            r.handler == handler,
    {
        MiscTrackedOrdinaryBlobFileCollection { handler }
    }
}

impl<Handler: OpaqueCollectionHandler> RepoFileCollection for MiscTrackedOrdinaryBlobFileCollection<
    Handler,
> {

}

impl<Handler: OpaqueCollectionHandler> TrackedOrdinaryBlobFileCollection for MiscTrackedOrdinaryBlobFileCollection<
    Handler,
> {
    open spec fn stored(&self) -> Objects {
        self.handler.files()
    }

    open spec fn reliable(&self) -> bool {
        self.handler.reliable()
    }

    fn has_file(&self, hash: &str) -> (r: FcResult<bool>) {
        self.handler.has_file(hash)
    }

    fn get_file(&self, hash: &str) -> (r: FcResult<Box<TrackedOrdinaryBlobFile>>) {
        let bytes = match self.handler.read_file(hash) {
            Ok(bytes) => bytes,
            Err(e) => {
                return Err(e);
            },
        };
        match TrackedOrdinaryBlobFile::from_existing(bytes.as_slice()) {
            Ok(file) => Ok(Box::new(file)),
            Err(e) => Err(e),
        }
    }

    fn put_file(&mut self, tracked_file: &TrackedOrdinaryBlobFile) -> (r: FcResult<String>) {
        put_bytes(&mut self.handler, tracked_file.blob.as_slice())
    }
}

} // verus!
