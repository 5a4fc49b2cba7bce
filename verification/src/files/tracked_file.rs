use crate::error::FcResult;
use crate::files::blob::BlobProvider;
use crate::files::hashable::{hash_of_cloned, Hashable};
use crate::files::{append_bytes, RepoFile};
use crate::meta::blob::model::Blob;
use vstd::prelude::*;
use vstd::slice::slice_to_vec;

verus! {

/// Access to the content of a stored file.
pub trait TrackedBlobProvider: BlobProvider {

}

/// The content of a tracked file, as a repository stores it.
pub trait RepoTrackedFile: RepoFile + TrackedBlobProvider + BlobProvider + Hashable {

}

/// The content of a tracked file, held in memory. Its bytes are its canonical form.
#[derive(Debug)]
pub struct TrackedFile {
    pub blob: Blob,
}

impl TrackedFile {
    /// The file of the content that `readable` holds.
    pub fn from_existing(readable: &[u8]) -> (r: FcResult<Self>)
        ensures
            r matches Ok(file) && file.blob@ == readable@,
    {
        Ok(TrackedFile { blob: Blob::from_vec(slice_to_vec(readable)) })
    }
}

impl BlobProvider for TrackedFile {
    open spec fn blob(&self) -> Seq<u8> {
        self.blob@
    }

    open spec fn available(&self) -> bool {
        true
    }

    fn clone_blob(&self) -> (r: FcResult<Blob>) {
        Ok(self.blob.clone())
    }

    fn into_blob(self) -> (r: FcResult<Blob>) {
        Ok(self.blob)
    }
}

impl RepoFile for TrackedFile {
    fn load(&mut self, readable: &[u8]) -> (r: FcResult<()>)
        ensures
            r is Ok,
    {
        self.blob = Blob::from_vec(slice_to_vec(readable));
        Ok(())
    }

    fn save(&self, writeable: &mut Vec<u8>) -> (r: FcResult<()>)
        ensures
            r is Ok,
    {
        append_bytes(writeable, self.blob.as_slice());
        Ok(())
    }
}

impl Hashable for TrackedFile {
    fn get_hash(&self) -> (r: FcResult<String>) {
        hash_of_cloned(self.clone_blob())
    }
}

impl TrackedBlobProvider for TrackedFile {

}

impl RepoTrackedFile for TrackedFile {

}

} // verus!
