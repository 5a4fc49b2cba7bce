use crate::error::{ErrorKind, FcResult};
use crate::files::blob::BlobProvider;
use crate::files::hashable::{hash_of_cloned, Hashable};
use crate::files::{append_bytes, RepoFile};
use crate::meta::blob::model::Blob;
use crate::meta::index::principal_conversions::index_bytes;
use crate::meta::index::{index_wf, Entries, Index};
use vstd::prelude::*;
use vstd::slice::slice_to_vec;

verus! {

/// Something that holds an index and lets it be replaced. Where the index
/// comes from, where it goes and whether it lasts is not its concern.
pub trait IndexProvider {
    /// The entries of the index that is held.
    open spec fn provided(&self) -> Entries {
        arbitrary()
    }

    /// The index that is held.
    fn get_index_ref(&self) -> (r: FcResult<&Index>)
        ensures
            r matches Ok(index) ==> index@ == self.provided(),
    ;

    /// Replaces the index that is held by `index`.
    fn set_index(&mut self, index: Index) -> (r: FcResult<()>)
        ensures
            r is Ok ==> final(self).provided() == index@,
            r is Err ==> final(self).provided() == old(self).provided(),
    ;
}

/// A stored index.
pub trait RepoIndexFile: RepoFile + IndexProvider + BlobProvider + Hashable {

}

/// An index as a repository stores it.
///
/// The index is held in memory as it is. Its bytes are made when they are
/// asked for, and they are made in one way only: they are the canonical
/// bytes of the index.
#[derive(Debug)]
pub struct IndexFile {
    pub index: Index,
}

impl IndexFile {
    /// The file of an index that tracks no path. Nothing is written yet.
    pub fn new() -> (r: Self)
        ensures
            r.index@ == Entries::empty(),
    {
        IndexFile { index: Index::new() }
    }

    /// The file of the index whose canonical bytes `readable` holds. It
    /// fails, with the kind `MalformedDocument`, where `readable` is not the
    /// canonical form of any index.
    pub fn from_existing(readable: &[u8]) -> (r: FcResult<Self>)
        ensures
            match r {
                Ok(file) => file.index.wf() && index_bytes(file.index@) == readable@,
                Err(e) => {
                    &&& forall|entries: Entries|
                        index_wf(entries) ==> #[trigger] index_bytes(entries) != readable@
                    &&& e.kind == ErrorKind::MalformedDocument
                    &&& e.wrapped is None
                },
            },
    {
        match Index::try_from_blob(Blob::from_vec(slice_to_vec(readable))) {
            Ok(index) => Ok(IndexFile { index }),
            Err(e) => Err(e),
        }
    }
}

impl BlobProvider for IndexFile {
    open spec fn blob(&self) -> Seq<u8> {
        index_bytes(self.index@)
    }

    open spec fn available(&self) -> bool {
        true
    }

    fn clone_blob(&self) -> (r: FcResult<Blob>) {
        Blob::try_from_index(self.index.clone())
    }

    fn into_blob(self) -> (r: FcResult<Blob>) {
        Blob::try_from_index(self.index)
    }
}

impl RepoFile for IndexFile {
    fn load(&mut self, readable: &[u8]) -> (r: FcResult<()>)
        ensures
            match r {
                Ok(_) => final(self).index.wf(),
                Err(e) => {
                    &&& final(self).index@ == old(self).index@
                    &&& forall|entries: Entries|
                        index_wf(entries) ==> #[trigger] index_bytes(entries) != readable@
                    &&& e.kind == ErrorKind::MalformedDocument
                },
            },
    {
        match Index::try_from_blob(Blob::from_vec(slice_to_vec(readable))) {
            Ok(index) => {
                self.index = index;
                Ok(())
            },
            Err(e) => Err(e),
        }
    }

    fn save(&self, writeable: &mut Vec<u8>) -> (r: FcResult<()>)
        ensures
            r is Ok,
    {
        match self.clone_blob() {
            Ok(blob) => {
                append_bytes(writeable, blob.as_slice());
                Ok(())
            },
            Err(e) => Err(e),
        }
    }
}

impl IndexProvider for IndexFile {
    open spec fn provided(&self) -> Entries {
        self.index@
    }

    fn get_index_ref(&self) -> (r: FcResult<&Index>)
        ensures
            r is Ok,
    {
        Ok(&self.index)
    }

    fn set_index(&mut self, index: Index) -> (r: FcResult<()>)
        ensures
            r is Ok,
    {
        self.index = index;
        Ok(())
    }
}

impl Hashable for IndexFile {
    fn get_hash(&self) -> (r: FcResult<String>) {
        hash_of_cloned(self.clone_blob())
    }
}

impl RepoIndexFile for IndexFile {

}

} // verus!
