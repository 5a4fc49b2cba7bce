use crate::error::{Error, ErrorKind, FcResult};
use crate::files::blob::BlobProvider;
use crate::files::content_addressed::{put_bytes, with_object, Objects};
use crate::files::hashable::content_hash;
use crate::files::index::IndexFile;
use crate::files::RepoFileCollection;
use crate::meta::index::principal_conversions::index_bytes;
use crate::meta::index::{index_wf, Entries};
use crate::opaque_collection_handler::OpaqueCollectionHandler;
use vstd::prelude::*;

verus! {

/// The collection of the indexes of a repository. An index stands under the
/// hash of its canonical bytes.
pub trait IndexFileCollection {
    /// The bytes that the collection holds under each hash.
    open spec fn stored(&self) -> Objects {
        arbitrary()
    }

    /// Whether the backend of the collection is reliable.
    open spec fn reliable(&self) -> bool {
        false
    }

    /// Whether the collection holds an index under `index`.
    fn has_index(&self, index: &str) -> (r: FcResult<bool>)
        ensures
            r matches Ok(found) ==> found == self.stored().contains_key(index@),
            self.reliable() ==> r is Ok,
    ;

    /// The file of an index that tracks no path. Nothing is written yet.
    fn create_unwritten_empty_index_file_box(&self) -> (r: Box<IndexFile>)
        ensures
            r.index@ == Entries::empty(),
    ;

    /// The index that the collection holds under `index`.
    ///
    /// On a reliable backend it fails in two cases. Where the collection
    /// holds nothing under `index`, the kind is
    /// `PathDoesNotExistInCollection`. Where it holds bytes that are not the
    /// canonical form of any index, the kind is `RepoFileOperationFailed`
    /// and the error wraps one of the kind `MalformedDocument`.
    fn get_index_file(&self, index: &str) -> (r: FcResult<Box<IndexFile>>)
        ensures
            match r {
                Ok(file) => {
                    &&& self.stored().contains_key(index@)
                    &&& file.index.wf()
                    &&& index_bytes(file.index@) == self.stored()[index@]
                },
                Err(e) => self.reliable() ==> if self.stored().contains_key(index@) {
                    &&& forall|entries: Entries|
                        index_wf(entries) ==> #[trigger] index_bytes(entries)
                            != self.stored()[index@]
                    &&& e.kind == ErrorKind::RepoFileOperationFailed
                    &&& e.root_kind() == ErrorKind::MalformedDocument
                } else {
                    e.kind == ErrorKind::PathDoesNotExistInCollection && e.wrapped is None
                },
            },
    ;

    /// Puts the index into the collection under the hash of its canonical
    /// bytes and returns the hash. Putting an index that is there already
    /// writes nothing and succeeds.
    ///
    /// On a reliable backend it succeeds. Whatever happens, no object that
    /// the collection held is changed.
    fn put_index_file(&mut self, index_file: Box<IndexFile>) -> (r: FcResult<String>)
        ensures
            final(self).reliable() == old(self).reliable(),
            final(self).stored().remove(content_hash(index_bytes(index_file.index@)))
                == old(self).stored().remove(content_hash(index_bytes(index_file.index@))),
            old(self).stored().contains_key(content_hash(index_bytes(index_file.index@)))
                ==> final(self).stored() == old(self).stored(),
            match r {
                Ok(hash) => {
                    &&& hash@ == content_hash(index_bytes(index_file.index@))
                    &&& final(self).stored() == with_object(
                        old(self).stored(),
                        index_bytes(index_file.index@),
                    )
                },
                Err(e) => !old(self).reliable(),
            },
    ;
}

/// A collection of indexes on any backend.
pub struct MiscIndexFileCollection<Handler: OpaqueCollectionHandler> {
    pub handler: Handler,
}

impl<Handler: OpaqueCollectionHandler> MiscIndexFileCollection<Handler> {
    /// The collection of the indexes that `handler` holds.
    pub fn new(handler: Handler) -> (r: Self)
        ensures
            r.handler == handler,
    {
        MiscIndexFileCollection { handler }
    }
}

impl<Handler: OpaqueCollectionHandler> RepoFileCollection for MiscIndexFileCollection<Handler> {

}

impl<Handler: OpaqueCollectionHandler> IndexFileCollection for MiscIndexFileCollection<Handler> {
    open spec fn stored(&self) -> Objects {
        self.handler.files()
    }

    open spec fn reliable(&self) -> bool {
        self.handler.reliable()
    }

    fn has_index(&self, index: &str) -> (r: FcResult<bool>) {
        self.handler.has_file(index)
    }

    fn create_unwritten_empty_index_file_box(&self) -> (r: Box<IndexFile>) {
        Box::new(IndexFile::new())
    }

    fn get_index_file(&self, index: &str) -> (r: FcResult<Box<IndexFile>>) {
        let bytes = match self.handler.read_file(index) {
            Ok(bytes) => bytes,
            Err(e) => {
                return Err(e);
            },
        };
        match IndexFile::from_existing(bytes.as_slice()) {
            Ok(index_file) => Ok(Box::new(index_file)),
            Err(e) => {
                proof {
                    reveal_with_fuel(Error::root_kind, 2);
                }
                Err(
                    Error::wrapping(
                        ErrorKind::RepoFileOperationFailed,
                        "Reading and deserializing the contents of an index file.",
                        Some(self.handler.get_debug_info_for_file(index)),
                        e,
                    ),
                )
            },
        }
    }

    fn put_index_file(&mut self, index_file: Box<IndexFile>) -> (r: FcResult<String>) {
        let blob = match index_file.clone_blob() {
            Ok(blob) => blob,
            Err(e) => {
                proof {
                    assert(false);
                }
                return Err(e);
            },
        };
        put_bytes(&mut self.handler, blob.as_slice())
    }
}

} // verus!
