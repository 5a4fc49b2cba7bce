use crate::meta::file_aspects::aspects::directory::{
    RepoExportedDirectoryAspects,
    TrackedDirectoryAspects,
};
use crate::meta::file_aspects::aspects::non_existing::{
    RepoExportedNonExistingAspects,
    TrackedNonExistingAspects,
};
use crate::meta::file_aspects::aspects::ordinary::{
    RepoExportedOrdinaryAspects,
    RepoExportedOrdinaryView,
    TrackedOrdinaryAspects,
    TrackedOrdinaryView,
};
use crate::meta::file_aspects::aspects::symlink::{
    RepoExportedSymlinkAspects,
    TrackedSymlinkAspects,
};
use crate::meta::file_aspects::attributes::AttributesView;
use crate::text::same_text;
use vstd::prelude::*;

verus! {

/// What an index holds of a path.
#[derive(Debug, PartialEq, Eq)]
pub enum TrackedFileAspects {
    NonExisting(TrackedNonExistingAspects),
    Directory(TrackedDirectoryAspects),
    Ordinary(TrackedOrdinaryAspects),
    Symlink(TrackedSymlinkAspects),
}

/// What a repository hands out of a path.
#[derive(Debug, PartialEq, Eq)]
pub enum RepoExportedFileAspects {
    NonExisting(RepoExportedNonExistingAspects),
    Directory(RepoExportedDirectoryAspects),
    Ordinary(RepoExportedOrdinaryAspects),
    Symlink(RepoExportedSymlinkAspects),
}

/// What an index holds of a path, as contracts speak of it.
pub enum TrackedView {
    NonExisting,
    Directory(AttributesView),
    Ordinary(TrackedOrdinaryView),
    Symlink(Seq<char>),
}

/// What a repository hands out of a path, as contracts speak of it.
pub enum RepoExportedView {
    NonExisting,
    Directory(AttributesView),
    Ordinary(RepoExportedOrdinaryView),
    Symlink(Seq<char>),
}

impl View for TrackedFileAspects {
    type V = TrackedView;

    open spec fn view(&self) -> TrackedView {
        match self {
            TrackedFileAspects::NonExisting(_) => TrackedView::NonExisting,
            TrackedFileAspects::Directory(a) => TrackedView::Directory(a@),
            TrackedFileAspects::Ordinary(a) => TrackedView::Ordinary(a@),
            TrackedFileAspects::Symlink(a) => TrackedView::Symlink(a@),
        }
    }
}

impl View for RepoExportedFileAspects {
    type V = RepoExportedView;

    open spec fn view(&self) -> RepoExportedView {
        match self {
            RepoExportedFileAspects::NonExisting(_) => RepoExportedView::NonExisting,
            RepoExportedFileAspects::Directory(a) => RepoExportedView::Directory(a@),
            RepoExportedFileAspects::Ordinary(a) => RepoExportedView::Ordinary(a@),
            RepoExportedFileAspects::Symlink(a) => RepoExportedView::Symlink(a@),
        }
    }
}

/// The exported form of a tracked entry. `blob` is the content that goes
/// with an ordinary file; the other kinds take no content.
pub open spec fn exported(entry: TrackedView, blob: Seq<u8>) -> RepoExportedView {
    match entry {
        TrackedView::NonExisting => RepoExportedView::NonExisting,
        TrackedView::Directory(attributes) => RepoExportedView::Directory(attributes),
        TrackedView::Ordinary(ordinary) => RepoExportedView::Ordinary(
            RepoExportedOrdinaryView {
                repo_blob_hash: ordinary.hash,
                attributes: ordinary.attributes,
                blob,
            },
        ),
        TrackedView::Symlink(linked_to) => RepoExportedView::Symlink(linked_to),
    }
}

impl Clone for TrackedFileAspects {
    fn clone(&self) -> (r: Self)
        ensures
            r@ == self@,
    {
        match self {
            TrackedFileAspects::NonExisting(a) => TrackedFileAspects::NonExisting(*a),
            TrackedFileAspects::Directory(a) => TrackedFileAspects::Directory(a.clone()),
            TrackedFileAspects::Ordinary(a) => TrackedFileAspects::Ordinary(a.clone()),
            TrackedFileAspects::Symlink(a) => TrackedFileAspects::Symlink(a.clone()),
        }
    }
}

impl Clone for RepoExportedFileAspects {
    fn clone(&self) -> (r: Self)
        ensures
            r@ == self@,
    {
        match self {
            RepoExportedFileAspects::NonExisting(a) => RepoExportedFileAspects::NonExisting(*a),
            RepoExportedFileAspects::Directory(a) => RepoExportedFileAspects::Directory(a.clone()),
            RepoExportedFileAspects::Ordinary(a) => RepoExportedFileAspects::Ordinary(a.clone()),
            RepoExportedFileAspects::Symlink(a) => RepoExportedFileAspects::Symlink(a.clone()),
        }
    }
}

impl TrackedFileAspects {
    /// Whether two entries hold the same.
    pub fn same(&self, other: &TrackedFileAspects) -> (r: bool)
        ensures
            r == (self@ == other@),
    {
        match (self, other) {
            (TrackedFileAspects::NonExisting(_), TrackedFileAspects::NonExisting(_)) => true,
            (TrackedFileAspects::Directory(a), TrackedFileAspects::Directory(b)) => {
                a.attributes.same(&b.attributes)
            },
            (TrackedFileAspects::Ordinary(a), TrackedFileAspects::Ordinary(b)) => {
                same_text(a.hash.as_str(), b.hash.as_str()) && a.attributes.same(&b.attributes)
            },
            (TrackedFileAspects::Symlink(a), TrackedFileAspects::Symlink(b)) => {
                same_text(a.linked_to.as_str(), b.linked_to.as_str())
            },
            _ => false,
        }
    }
}

} // verus!
