use crate::meta::blob::repo_exported::RepoExportedHeapOrdinaryBlobProvider;
use crate::meta::file_aspects::attributes::{Attributes, AttributesView};
use crate::text::owned_text;
use vstd::prelude::*;

verus! {

/// An ordinary file, as a caller hands it in: without a content hash. The
/// hash is for the repository to compute, from the content.
#[derive(Debug, PartialEq, Eq)]
pub struct TrackableOrdinaryAspects {
    pub attributes: Attributes,
}

/// An ordinary file, as an index holds it: with the hash of its content.
#[derive(Debug, PartialEq, Eq)]
pub struct TrackedOrdinaryAspects {
    pub hash: String,
    pub attributes: Attributes,
}

/// An ordinary file, as a repository hands it out: with its content, and
/// with the hash under which the repository keeps that content, so that
/// whoever receives the file can hold what it got against it.
///
/// The hash goes one way only, from the tracked form to this one: there is
/// no other way to make a value of this type, and none to change its hash.
#[derive(Debug, PartialEq, Eq)]
pub struct RepoExportedOrdinaryAspects {
    repo_blob_hash: String,
    pub attributes: Attributes,
    pub blob_provider: RepoExportedHeapOrdinaryBlobProvider,
}

/// A tracked ordinary file, as contracts speak of it.
pub struct TrackedOrdinaryView {
    pub hash: Seq<char>,
    pub attributes: AttributesView,
}

/// An exported ordinary file, as contracts speak of it.
pub struct RepoExportedOrdinaryView {
    pub repo_blob_hash: Seq<char>,
    pub attributes: AttributesView,
    pub blob: Seq<u8>,
}

impl View for TrackableOrdinaryAspects {
    type V = AttributesView;

    open spec fn view(&self) -> AttributesView {
        self.attributes@
    }
}

impl View for TrackedOrdinaryAspects {
    type V = TrackedOrdinaryView;

    open spec fn view(&self) -> TrackedOrdinaryView {
        TrackedOrdinaryView { hash: self.hash@, attributes: self.attributes@ }
    }
}

impl View for RepoExportedOrdinaryAspects {
    type V = RepoExportedOrdinaryView;

    closed spec fn view(&self) -> RepoExportedOrdinaryView {
        RepoExportedOrdinaryView {
            repo_blob_hash: self.repo_blob_hash@,
            attributes: self.attributes@,
            blob: self.blob_provider@,
        }
    }
}

impl TrackableOrdinaryAspects {
    pub fn new(attributes: Attributes) -> (r: Self)
        ensures
            r.attributes == attributes,
    {
        TrackableOrdinaryAspects { attributes }
    }
}

impl TrackedOrdinaryAspects {
    pub fn new(hash: &str, attributes: Attributes) -> (r: Self)
        ensures
            r.hash@ == hash@,
            r.attributes == attributes,
    {
        TrackedOrdinaryAspects { hash: owned_text(hash), attributes }
    }

    /// The tracked form of `trackable_aspects`: its attributes, and `hash`
    /// as the hash of the content.
    pub fn from_trackable(trackable_aspects: TrackableOrdinaryAspects, hash: &str) -> (r: Self)
        ensures
            r.hash@ == hash@,
            r.attributes == trackable_aspects.attributes,
    {
        Self::new(hash, trackable_aspects.attributes)
    }
}

impl RepoExportedOrdinaryAspects {
    /// The exported form of `tracked_aspects`: its attributes, its hash as
    /// the hash that the repository knows the content by, and
    /// `blob_provider` for the content.
    pub fn from_tracked(
        tracked_aspects: TrackedOrdinaryAspects,
        blob_provider: RepoExportedHeapOrdinaryBlobProvider,
    ) -> (r: Self)
        ensures
            r@ == (RepoExportedOrdinaryView {
                repo_blob_hash: tracked_aspects.hash@,
                attributes: tracked_aspects.attributes@,
                blob: blob_provider@,
            }),
    {
        RepoExportedOrdinaryAspects {
            repo_blob_hash: tracked_aspects.hash,
            attributes: tracked_aspects.attributes,
            blob_provider,
        }
    }

    /// The hash under which the repository keeps the content.
    pub fn repo_blob_hash(&self) -> (r: &str)
        ensures
            r@ == self@.repo_blob_hash,
    {
        self.repo_blob_hash.as_str()
    }
}

impl Clone for TrackableOrdinaryAspects {
    fn clone(&self) -> (r: Self)
        ensures
            r@ == self@,
    {
        TrackableOrdinaryAspects { attributes: self.attributes.clone() }
    }
}

impl Clone for TrackedOrdinaryAspects {
    fn clone(&self) -> (r: Self)
        ensures
            r@ == self@,
    {
        TrackedOrdinaryAspects { hash: self.hash.clone(), attributes: self.attributes.clone() }
    }
}

impl Clone for RepoExportedOrdinaryAspects {
    fn clone(&self) -> (r: Self)
        ensures
            r@ == self@,
    {
        RepoExportedOrdinaryAspects {
            repo_blob_hash: self.repo_blob_hash.clone(),
            attributes: self.attributes.clone(),
            blob_provider: self.blob_provider.clone(),
        }
    }
}

} // verus!
