use crate::text::owned_text;
use vstd::prelude::*;

verus! {

/// An entry of the ledger. It may refer to an index by the content hash of
/// the index.
///
/// A version is not stored under a hash of its own. It is known by the id
/// under which the ledger holds it, and two versions may well refer to the
/// same index.
#[derive(Debug, PartialEq, Eq)]
pub struct Version {
    pub index: Option<String>,
}

impl View for Version {
    type V = Option<Seq<char>>;

    open spec fn view(&self) -> Option<Seq<char>> {
        match self.index {
            Some(hash) => Some(hash@),
            None => None,
        }
    }
}

impl Version {
    /// A version that refers to the index with the hash `index`.
    pub fn new_with_index(index: &str) -> (r: Self)
        ensures
            r@ == Some(index@),
    {
        Version { index: Some(owned_text(index)) }
    }

    /// A version that refers to no index.
    pub fn new() -> (r: Self)
        ensures
            r@ is None,
    {
        Version { index: None }
    }
}

impl Clone for Version {
    fn clone(&self) -> (r: Self)
        ensures
            r@ == self@,
    {
        match &self.index {
            Some(hash) => Version { index: Some(hash.clone()) },
            None => Version { index: None },
        }
    }
}

} // verus!
