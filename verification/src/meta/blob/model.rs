use vstd::prelude::*;

verus! {

/// The bytes of a stored object: the content of an ordinary file, or the
/// canonical form of an index or of the ledger.
///
/// A blob has no identity beyond its bytes.
#[derive(Debug, PartialEq, Eq)]
pub struct Blob {
    inner: Vec<u8>,
}

impl View for Blob {
    type V = Seq<u8>;

    closed spec fn view(&self) -> Seq<u8> {
        self.inner@
    }
}

impl Blob {
    /// The blob that holds `blob`.
    pub fn from_vec(blob: Vec<u8>) -> (r: Self)
        ensures
            r@ == blob@,
    {
        Blob { inner: blob }
    }

    /// The bytes of the blob.
    pub fn into_vec(self) -> (r: Vec<u8>)
        ensures
            r@ == self@,
    {
        self.inner
    }

    /// The bytes of the blob.
    pub fn as_slice(&self) -> (r: &[u8])
        ensures
            r@ == self@,
    {
        self.inner.as_slice()
    }

    /// The number of bytes.
    pub fn len(&self) -> (r: usize)
        ensures
            r == self@.len(),
    {
        self.inner.len()
    }
}

impl Default for Blob {
    /// The empty blob.
    fn default() -> (r: Self)
        ensures
            r@ == Seq::<u8>::empty(),
    {
        Blob { inner: Vec::new() }
    }
}

impl Clone for Blob {
    fn clone(&self) -> (r: Self)
        ensures
            r@ == self@,
    {
        Blob { inner: self.inner.clone() }
    }
}

} // verus!
