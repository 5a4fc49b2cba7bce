use vstd::prelude::*;

verus! {

/// That nothing is to exist at a path, as a caller hands it in.
///
/// Whoever applies such an entry has to see to it that nothing exists at the
/// path, and may remove what it finds there.
#[derive(Clone, Copy, Debug, PartialEq, Eq, Structural)]
pub struct TrackableNonExistingAspects {}

/// That nothing is to exist at a path, as an index holds it.
#[derive(Clone, Copy, Debug, PartialEq, Eq, Structural)]
pub struct TrackedNonExistingAspects {}

/// That nothing is to exist at a path, as a repository hands it out.
#[derive(Clone, Copy, Debug, PartialEq, Eq, Structural)]
pub struct RepoExportedNonExistingAspects {}

impl TrackableNonExistingAspects {
    pub fn new() -> (r: Self)
        ensures
            r == (TrackableNonExistingAspects {  }),
    {
        TrackableNonExistingAspects {  }
    }

    /// The trackable form of another trackable form.
    pub fn from_tracked(tracked_aspects: TrackableNonExistingAspects) -> (r: Self)
        ensures
            r == tracked_aspects,
    {
        tracked_aspects
    }
}

impl TrackedNonExistingAspects {
    pub fn new() -> (r: Self)
        ensures
            r == (TrackedNonExistingAspects {  }),
    {
        TrackedNonExistingAspects {  }
    }

    /// The tracked form of `trackable_aspects`.
    pub fn from_trackable(trackable_aspects: TrackableNonExistingAspects) -> (r: Self)
        ensures
            r == (TrackedNonExistingAspects {  }),
    {
        TrackedNonExistingAspects {  }
    }
}

impl RepoExportedNonExistingAspects {
    pub fn new() -> (r: Self)
        ensures
            r == (RepoExportedNonExistingAspects {  }),
    {
        RepoExportedNonExistingAspects {  }
    }

    /// The exported form of `tracked_aspects`.
    pub fn from_tracked(tracked_aspects: TrackedNonExistingAspects) -> (r: Self)
        ensures
            r == (RepoExportedNonExistingAspects {  }),
    {
        RepoExportedNonExistingAspects {  }
    }
}

} // verus!
