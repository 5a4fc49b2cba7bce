use crate::text::same_text;
use vstd::prelude::*;

verus! {

/// The attributes of a file: who owns it.
#[derive(Debug, PartialEq, Eq)]
pub struct Attributes {
    pub posix_user: String,
    pub posix_group: String,
}

/// The attributes of a file, as contracts speak of them.
pub struct AttributesView {
    pub posix_user: Seq<char>,
    pub posix_group: Seq<char>,
}

impl View for Attributes {
    type V = AttributesView;

    open spec fn view(&self) -> AttributesView {
        AttributesView { posix_user: self.posix_user@, posix_group: self.posix_group@ }
    }
}

impl Clone for Attributes {
    fn clone(&self) -> (r: Self)
        ensures
            r@ == self@,
    {
        Attributes { posix_user: self.posix_user.clone(), posix_group: self.posix_group.clone() }
    }
}

impl Attributes {
    /// Whether two sets of attributes are the same.
    pub fn same(&self, other: &Attributes) -> (r: bool)
        ensures
            r == (self@ == other@),
    {
        same_text(self.posix_user.as_str(), other.posix_user.as_str()) && same_text(
            self.posix_group.as_str(),
            other.posix_group.as_str(),
        )
    }
}

} // verus!
