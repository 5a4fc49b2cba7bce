use vstd::prelude::*;

verus! {

/// A symlink, as a caller hands it in.
#[derive(Debug, PartialEq, Eq)]
pub struct TrackableSymlinkAspects {
    pub linked_to: String,
}

/// A symlink, as an index holds it.
#[derive(Debug, PartialEq, Eq)]
pub struct TrackedSymlinkAspects {
    pub linked_to: String,
}

/// A symlink, as a repository hands it out.
#[derive(Debug, PartialEq, Eq)]
pub struct RepoExportedSymlinkAspects {
    pub linked_to: String,
}

impl View for TrackableSymlinkAspects {
    type V = Seq<char>;

    open spec fn view(&self) -> Seq<char> {
        self.linked_to@
    }
}

impl View for TrackedSymlinkAspects {
    type V = Seq<char>;

    open spec fn view(&self) -> Seq<char> {
        self.linked_to@
    }
}

impl View for RepoExportedSymlinkAspects {
    type V = Seq<char>;

    open spec fn view(&self) -> Seq<char> {
        self.linked_to@
    }
}

impl TrackableSymlinkAspects {
    pub fn new(linked_to: String) -> (r: Self)
        ensures
            r.linked_to == linked_to,
    {
        TrackableSymlinkAspects { linked_to }
    }
}

impl TrackedSymlinkAspects {
    pub fn new(linked_to: String) -> (r: Self)
        ensures
            r.linked_to == linked_to,
    {
        TrackedSymlinkAspects { linked_to }
    }

    /// The tracked form of `trackable_aspects`: the same target.
    pub fn from_trackable(trackable_aspects: TrackableSymlinkAspects) -> (r: Self)
        ensures
            r.linked_to == trackable_aspects.linked_to,
    {
        Self::new(trackable_aspects.linked_to)
    }
}

impl RepoExportedSymlinkAspects {
    pub fn new(linked_to: String) -> (r: Self)
        ensures
            r.linked_to == linked_to,
    {
        RepoExportedSymlinkAspects { linked_to }
    }

    /// The exported form of `tracked_aspects`: the same target.
    pub fn from_tracked(tracked_aspects: TrackedSymlinkAspects) -> (r: Self)
        ensures
            r.linked_to == tracked_aspects.linked_to,
    {
        Self::new(tracked_aspects.linked_to)
    }
}

impl Clone for TrackableSymlinkAspects {
    fn clone(&self) -> (r: Self)
        ensures
            r@ == self@,
    {
        TrackableSymlinkAspects { linked_to: self.linked_to.clone() }
    }
}

impl Clone for TrackedSymlinkAspects {
    fn clone(&self) -> (r: Self)
        ensures
            r@ == self@,
    {
        TrackedSymlinkAspects { linked_to: self.linked_to.clone() }
    }
}

impl Clone for RepoExportedSymlinkAspects {
    fn clone(&self) -> (r: Self)
        ensures
            r@ == self@,
    {
        RepoExportedSymlinkAspects { linked_to: self.linked_to.clone() }
    }
}

} // verus!
