use vstd::prelude::*;

verus! {

/// A hard link, as an index would hold it. Hard links are not tracked: no
/// index holds one.
#[derive(Clone, Copy, Debug, PartialEq, Eq, Structural)]
pub struct TrackedHardlinkAspects {}

/// A hard link, as a caller would hand it in.
#[derive(Clone, Copy, Debug, PartialEq, Eq, Structural)]
pub struct TrackableHardlinkAspects {}

/// A hard link, as a repository would hand it out.
#[derive(Clone, Copy, Debug, PartialEq, Eq, Structural)]
pub struct RepoExportedHardlinkAspects {}

} // verus!
