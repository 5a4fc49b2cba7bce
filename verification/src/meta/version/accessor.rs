use crate::meta::version::model::Version;
use crate::text::owned_text;
use vstd::prelude::*;

verus! {

/// Reading and setting the index that a version refers to.
pub trait VersionAccessor {
    /// The hash of the index that the version refers to, if it refers to one.
    spec fn index_ref(&self) -> Option<Seq<char>>;

    /// Whether the version refers to an index.
    fn has_index(&self) -> (r: bool)
        ensures
            r == self.index_ref().is_some(),
    ;

    /// The hash of the index that the version refers to.
    fn get_index_id(&self) -> (r: Option<String>)
        ensures
            match r {
                Some(hash) => self.index_ref() == Some(hash@),
                None => self.index_ref() is None,
            },
    ;

    /// Makes the version refer to the index with the hash `index_id`, and
    /// returns that hash.
    fn set_index_id(&mut self, index_id: &str) -> (r: String)
        ensures
            final(self).index_ref() == Some(index_id@),
            r@ == index_id@,
    ;
}

impl VersionAccessor for Version {
    open spec fn index_ref(&self) -> Option<Seq<char>> {
        self@
    }

    fn has_index(&self) -> (r: bool) {
        self.index.is_some()
    }

    fn get_index_id(&self) -> (r: Option<String>) {
        match &self.index {
            Some(hash) => Some(hash.clone()),
            None => None,
        }
    }

    fn set_index_id(&mut self, index_id: &str) -> (r: String) {
        self.index = Some(owned_text(index_id));
        owned_text(index_id)
    }
}

} // verus!
