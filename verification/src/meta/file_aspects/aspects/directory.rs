use crate::meta::file_aspects::attributes::{Attributes, AttributesView};
use vstd::prelude::*;

verus! {

/// A directory, as a caller hands it in.
#[derive(Debug, PartialEq, Eq)]
pub struct TrackableDirectoryAspects {
    pub attributes: Attributes,
}

/// A directory, as an index holds it.
#[derive(Debug, PartialEq, Eq)]
pub struct TrackedDirectoryAspects {
    pub attributes: Attributes,
}

/// A directory, as a repository hands it out.
#[derive(Debug, PartialEq, Eq)]
pub struct RepoExportedDirectoryAspects {
    pub attributes: Attributes,
}

impl View for TrackableDirectoryAspects {
    type V = AttributesView;

    open spec fn view(&self) -> AttributesView {
        self.attributes@
    }
}

impl View for TrackedDirectoryAspects {
    type V = AttributesView;

    open spec fn view(&self) -> AttributesView {
        self.attributes@
    }
}

impl View for RepoExportedDirectoryAspects {
    type V = AttributesView;

    open spec fn view(&self) -> AttributesView {
        self.attributes@
    }
}

impl TrackableDirectoryAspects {
    pub fn new(attributes: Attributes) -> (r: Self)
        ensures
            r.attributes == attributes,
    {
        TrackableDirectoryAspects { attributes }
    }
}

impl TrackedDirectoryAspects {
    pub fn new(attributes: Attributes) -> (r: Self)
        ensures
            r.attributes == attributes,
    {
        TrackedDirectoryAspects { attributes }
    }

    /// The tracked form of `trackable_aspects`: the same attributes.
    pub fn from_trackable(trackable_aspects: TrackableDirectoryAspects) -> (r: Self)
        ensures
            r.attributes == trackable_aspects.attributes,
    {
        Self::new(trackable_aspects.attributes)
    }
}

impl RepoExportedDirectoryAspects {
    pub fn new(attributes: Attributes) -> (r: Self)
        ensures
            r.attributes == attributes,
    {
        RepoExportedDirectoryAspects { attributes }
    }

    /// The exported form of `tracked_aspects`: the same attributes.
    pub fn from_tracked(tracked_aspects: TrackedDirectoryAspects) -> (r: Self)
        ensures
            r.attributes == tracked_aspects.attributes,
    {
        Self::new(tracked_aspects.attributes)
    }
}

impl Clone for TrackableDirectoryAspects {
    fn clone(&self) -> (r: Self)
        ensures
            r@ == self@,
    {
        TrackableDirectoryAspects { attributes: self.attributes.clone() }
    }
}

impl Clone for TrackedDirectoryAspects {
    fn clone(&self) -> (r: Self)
        ensures
            r@ == self@,
    {
        TrackedDirectoryAspects { attributes: self.attributes.clone() }
    }
}

impl Clone for RepoExportedDirectoryAspects {
    fn clone(&self) -> (r: Self)
        ensures
            r@ == self@,
    {
        RepoExportedDirectoryAspects { attributes: self.attributes.clone() }
    }
}

} // verus!
