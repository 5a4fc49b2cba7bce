use crate::error::FcResult;
use crate::files::blob::BlobProvider;
use crate::files::tracked_ordinary_blob::TrackedOrdinaryBlobProvider;
use crate::meta::blob::repo_exported::RepoExportedHeapOrdinaryBlobProvider;
use crate::meta::file_aspects::aspects::directory::{
    RepoExportedDirectoryAspects,
    TrackedDirectoryAspects,
};
use crate::meta::file_aspects::aspects::non_existing::{
    RepoExportedNonExistingAspects,
    TrackedNonExistingAspects,
};
use crate::meta::file_aspects::aspects::ordinary::{
    RepoExportedOrdinaryAspects,
    TrackedOrdinaryAspects,
};
use crate::meta::file_aspects::aspects::symlink::{
    RepoExportedSymlinkAspects,
    TrackedSymlinkAspects,
};
use crate::meta::file_aspects::enums::{
    exported,
    RepoExportedFileAspects,
    RepoExportedView,
    TrackedView,
};
use vstd::prelude::*;
use vstd::slice::slice_to_vec;

verus! {

/// The files that were handed out, as contracts speak of them: each path
/// with what the repository holds of it.
pub type ExportedFiles = Seq<(Seq<u8>, RepoExportedView)>;

/// A file that a repository hands out.
pub trait RepoExportedFile {
    /// The path of the file and what the repository holds of it.
    open spec fn file(&self) -> (Seq<u8>, RepoExportedView) {
        arbitrary()
    }

    /// The path of the file.
    fn get_path(&self) -> (r: Vec<u8>)
        ensures
            r@ == self.file().0,
    ;

    /// What the repository holds of the file.
    fn get_aspects(&self) -> (r: &RepoExportedFileAspects)
        ensures
            r@ == self.file().1,
    ;
}

/// A file that a repository hands out and that can be set anew.
pub trait RepoExportedFileInitializer: RepoExportedFile {
    /// Makes the file say that nothing is to exist at `path`.
    fn set_from_non_existing(&mut self, path: &[u8], aspects: RepoExportedNonExistingAspects)
        ensures
            final(self).file() == (path@, RepoExportedView::NonExisting),
    ;
}

/// A file that a repository hands out, held in memory together with its
/// content.
#[derive(Debug, PartialEq, Eq)]
pub struct RepoExportedHeapFile {
    pub path: Vec<u8>,
    pub aspects: RepoExportedFileAspects,
}

impl View for RepoExportedHeapFile {
    type V = (Seq<u8>, RepoExportedView);

    open spec fn view(&self) -> (Seq<u8>, RepoExportedView) {
        (self.path@, self.aspects@)
    }
}

impl RepoExportedHeapFile {
    pub fn new(path: Vec<u8>, aspects: RepoExportedFileAspects) -> (r: Self)
        ensures
            r.path == path,
            r.aspects == aspects,
    {
        RepoExportedHeapFile { path, aspects }
    }
}

impl RepoExportedFile for RepoExportedHeapFile {
    open spec fn file(&self) -> (Seq<u8>, RepoExportedView) {
        self@
    }

    fn get_path(&self) -> (r: Vec<u8>) {
        self.path.clone()
    }

    fn get_aspects(&self) -> (r: &RepoExportedFileAspects) {
        &self.aspects
    }
}

impl RepoExportedFileInitializer for RepoExportedHeapFile {
    fn set_from_non_existing(&mut self, path: &[u8], aspects: RepoExportedNonExistingAspects) {
        self.path = slice_to_vec(path);
        self.aspects = RepoExportedFileAspects::NonExisting(aspects);
    }
}

/// Where a repository puts the files that it hands out.
///
/// The repository adds one file after the other and keeps none of them, so
/// that a version with many files need not be held in memory at once. A
/// list may refuse a file; `accepting` says of a list that it refuses none.
pub trait RepoExportedFileList {
    /// The files that were added, in the order in which they were added.
    open spec fn files(&self) -> ExportedFiles {
        arbitrary()
    }

    /// Whether the list takes every file that is added to it.
    open spec fn accepting(&self) -> bool {
        false
    }

    /// The files that were added.
    fn consume_as_vec(self) -> (r: Vec<RepoExportedHeapFile>) where Self: Sized
        ensures
            r@.map_values(|f: RepoExportedHeapFile| f@) == self.files(),
    ;

    /// Adds the entry that says that nothing is to exist at `path`.
    fn add_non_existing(&mut self, path: Vec<u8>, tracked_aspects: TrackedNonExistingAspects) -> (r:
        FcResult<()>)
        ensures
            final(self).accepting() == old(self).accepting(),
            old(self).accepting() ==> r is Ok,
            match r {
                Ok(_) => final(self).files() == old(self).files().push(
                    (path@, RepoExportedView::NonExisting),
                ),
                Err(_) => final(self).files() == old(self).files(),
            },
    ;

    /// Adds the directory at `path`.
    fn add_directory(&mut self, path: Vec<u8>, tracked_aspects: TrackedDirectoryAspects) -> (r:
        FcResult<()>)
        ensures
            final(self).accepting() == old(self).accepting(),
            old(self).accepting() ==> r is Ok,
            match r {
                Ok(_) => final(self).files() == old(self).files().push(
                    (path@, RepoExportedView::Directory(tracked_aspects@)),
                ),
                Err(_) => final(self).files() == old(self).files(),
            },
    ;

    /// Adds the ordinary file at `path` with the content that
    /// `blob_provider` provides. It fails where the provider fails to hand
    /// out the content.
    fn add_ordinary<P: TrackedOrdinaryBlobProvider>(
        &mut self,
        path: Vec<u8>,
        tracked_aspects: TrackedOrdinaryAspects,
        blob_provider: &P,
    ) -> (r: FcResult<()>)
        ensures
            final(self).accepting() == old(self).accepting(),
            old(self).accepting() && blob_provider.available() ==> r is Ok,
            match r {
                Ok(_) => final(self).files() == old(self).files().push(
                    (path@, exported(TrackedView::Ordinary(tracked_aspects@), blob_provider.blob())),
                ),
                Err(_) => final(self).files() == old(self).files(),
            },
    ;

    /// Adds the symlink at `path`.
    fn add_symlink(&mut self, path: Vec<u8>, tracked_aspects: TrackedSymlinkAspects) -> (r:
        FcResult<()>)
        ensures
            final(self).accepting() == old(self).accepting(),
            old(self).accepting() ==> r is Ok,
            match r {
                Ok(_) => final(self).files() == old(self).files().push(
                    (path@, RepoExportedView::Symlink(tracked_aspects@)),
                ),
                Err(_) => final(self).files() == old(self).files(),
            },
    ;
}

/// A list that keeps the files in memory.
#[derive(Debug)]
pub struct RepoExportedVecFileList {
    vec: Vec<RepoExportedHeapFile>,
}

impl View for RepoExportedVecFileList {
    type V = ExportedFiles;

    closed spec fn view(&self) -> ExportedFiles {
        self.vec@.map_values(|f: RepoExportedHeapFile| f@)
    }
}

impl RepoExportedVecFileList {
    /// A list without files.
    pub fn new() -> (r: Self)
        ensures
            r@ == ExportedFiles::empty(),
            r.accepting(),
    {
        let r = RepoExportedVecFileList { vec: Vec::new() };
        proof {
            assert(r@ =~= ExportedFiles::empty());
        }
        r
    }

    /// The number of files.
    pub fn len(&self) -> (r: usize)
        ensures
            r == self@.len(),
    {
        self.vec.len()
    }

    /// The file at position `i`.
    pub fn get(&self, i: usize) -> (r: &RepoExportedHeapFile)
        requires
            i < self@.len(),
        ensures
            r@ == self@[i as int],
    {
        &self.vec[i]
    }

    /// Adds `file` at the end.
    fn push(&mut self, file: RepoExportedHeapFile)
        ensures
            final(self)@ == old(self)@.push(file@),
    {
        self.vec.push(file);
        proof {
            assert(self@ =~= old(self)@.push(file@));
        }
    }
}

impl RepoExportedFileList for RepoExportedVecFileList {
    open spec fn files(&self) -> ExportedFiles {
        self@
    }

    open spec fn accepting(&self) -> bool {
        true
    }

    fn consume_as_vec(self) -> (r: Vec<RepoExportedHeapFile>) {
        self.vec
    }

    fn add_non_existing(&mut self, path: Vec<u8>, tracked_aspects: TrackedNonExistingAspects) -> (r:
        FcResult<()>) {
        self.push(
            RepoExportedHeapFile::new(
                path,
                RepoExportedFileAspects::NonExisting(
                    RepoExportedNonExistingAspects::from_tracked(tracked_aspects),
                ),
            ),
        );
        Ok(())
    }

    fn add_directory(&mut self, path: Vec<u8>, tracked_aspects: TrackedDirectoryAspects) -> (r:
        FcResult<()>) {
        self.push(
            RepoExportedHeapFile::new(
                path,
                RepoExportedFileAspects::Directory(
                    RepoExportedDirectoryAspects::from_tracked(tracked_aspects),
                ),
            ),
        );
        Ok(())
    }

    fn add_ordinary<P: TrackedOrdinaryBlobProvider>(
        &mut self,
        path: Vec<u8>,
        tracked_aspects: TrackedOrdinaryAspects,
        blob_provider: &P,
    ) -> (r: FcResult<()>) {
        let blob = match blob_provider.clone_blob() {
            Ok(blob) => blob,
            Err(e) => {
                return Err(e);
            },
        };
        self.push(
            RepoExportedHeapFile::new(
                path,
                RepoExportedFileAspects::Ordinary(
                    RepoExportedOrdinaryAspects::from_tracked(
                        tracked_aspects,
                        RepoExportedHeapOrdinaryBlobProvider::new(blob),
                    ),
                ),
            ),
        );
        Ok(())
    }

    fn add_symlink(&mut self, path: Vec<u8>, tracked_aspects: TrackedSymlinkAspects) -> (r:
        FcResult<()>) {
        self.push(
            RepoExportedHeapFile::new(
                path,
                RepoExportedFileAspects::Symlink(
                    RepoExportedSymlinkAspects::from_tracked(tracked_aspects),
                ),
            ),
        );
        Ok(())
    }
}

} // verus!
