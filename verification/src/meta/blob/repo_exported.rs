use crate::error::FcResult;
use crate::files::blob::BlobProvider;
use crate::meta::blob::model::Blob;
use vstd::prelude::*;

verus! {

/// A provider of the blob of an ordinary file that a repository hands out.
pub trait RepoExportedOrdinaryBlobProvider: BlobProvider {

}

/// A provider that holds the blob in memory.
#[derive(Debug, PartialEq, Eq)]
pub struct RepoExportedHeapOrdinaryBlobProvider {
    blob: Blob,
}

impl View for RepoExportedHeapOrdinaryBlobProvider {
    type V = Seq<u8>;

    closed spec fn view(&self) -> Seq<u8> {
        self.blob@
    }
}

impl RepoExportedHeapOrdinaryBlobProvider {
    /// The provider of `blob`.
    pub fn new(blob: Blob) -> (r: Self)
        ensures
            r@ == blob@,
    {
        RepoExportedHeapOrdinaryBlobProvider { blob }
    }

    /// The provider of what `blob_provider` provides. It fails where
    /// `blob_provider` fails to hand out its blob.
    pub fn from_tracked_ordinary_blob_provider<P: BlobProvider>(blob_provider: P) -> (r: FcResult<
        Self,
    >)
        ensures
            r matches Ok(provider) ==> provider@ == blob_provider.blob(),
            blob_provider.available() ==> r is Ok,
    {
        match blob_provider.into_blob() {
            Ok(blob) => Ok(Self::new(blob)),
            Err(e) => Err(e),
        }
    }
}

impl BlobProvider for RepoExportedHeapOrdinaryBlobProvider {
    open spec fn blob(&self) -> Seq<u8> {
        self@
    }

    open spec fn available(&self) -> bool {
        true
    }

    fn clone_blob(&self) -> (r: FcResult<Blob>) {
        Ok(self.blob.clone())
    }

    fn into_blob(self) -> (r: FcResult<Blob>) {
        Ok(self.blob)
    }
}

impl RepoExportedOrdinaryBlobProvider for RepoExportedHeapOrdinaryBlobProvider {

}

impl Clone for RepoExportedHeapOrdinaryBlobProvider {
    fn clone(&self) -> (r: Self)
        ensures
            r@ == self@,
    {
        RepoExportedHeapOrdinaryBlobProvider { blob: self.blob.clone() }
    }
}

} // verus!
