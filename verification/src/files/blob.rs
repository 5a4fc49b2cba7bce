use crate::error::FcResult;
use crate::meta::blob::model::Blob;
use vstd::prelude::*;

verus! {

/// Access to the bytes of an object: of a tracked file or of an index, for
/// hashing it, storing it or handing it out.
pub trait BlobProvider: Sized {
    /// The bytes that the provider stands for.
    open spec fn blob(&self) -> Seq<u8> {
        arbitrary()
    }

    /// Whether the provider has its blob at hand, so that asking for it
    /// cannot fail.
    open spec fn available(&self) -> bool {
        false
    }

    /// A copy of the blob. The provider stays as it is.
    fn clone_blob(&self) -> (r: FcResult<Blob>)
        ensures
            r matches Ok(blob) ==> blob@ == self.blob(),
            self.available() ==> r is Ok,
    ;

    /// The blob, in exchange for the provider.
    fn into_blob(self) -> (r: FcResult<Blob>)
        ensures
            r matches Ok(blob) ==> blob@ == self.blob(),
            self.available() ==> r is Ok,
    ;
}

} // verus!
