//! The repository: the ledger, the indexes and the contents of ordinary
//! files, and what is done with them.
//!
//! Nothing that is stored under a hash is ever changed. To track a path in
//! a version is to build a new index from the one that the version refers
//! to, to store it under its own hash, and to make the version refer to it.
//! The index that the version referred to before stays where it was, for
//! whoever else refers to it.
//!
//! What an operation does is laid down by a function on the stored bytes:
//! `add_version_outcome`, `track_outcome`, `track_ordinary_outcome` and
//! `export_outcome`. On reliable backends the operation does just that. On
//! any backend it leaves every object that was stored as it was.

use crate::assoc::{as_map, has_key, put, value_of};
use crate::error::{ErrorKind, FcResult};
use crate::files::content_addressed::{with_object, Objects};
use crate::files::hashable::content_hash;
use crate::files::index::IndexFile;
use crate::files::index_collection::IndexFileCollection;
use crate::files::state::StateFile;
use crate::files::state_collection::StateFileCollection;
use crate::files::tracked_ordinary_blob::TrackedOrdinaryBlobFile;
use crate::files::tracked_ordinary_blob_collection::TrackedOrdinaryBlobFileCollection;
use crate::journal::Journal;
use crate::meta::blob::model::Blob;
use crate::meta::file_aspects::aspects::directory::{
    TrackableDirectoryAspects,
    TrackedDirectoryAspects,
};
use crate::meta::file_aspects::aspects::non_existing::{
    TrackableNonExistingAspects,
    TrackedNonExistingAspects,
};
use crate::meta::file_aspects::aspects::ordinary::{
    TrackableOrdinaryAspects,
    TrackedOrdinaryAspects,
    TrackedOrdinaryView,
};
use crate::meta::file_aspects::aspects::symlink::{TrackableSymlinkAspects, TrackedSymlinkAspects};
use crate::meta::file_aspects::attributes::AttributesView;
use crate::meta::file_aspects::enums::{exported, TrackedFileAspects, TrackedView};
use crate::meta::index::principal_conversions::{
    decode_index,
    index_bytes,
    lemma_decode_index,
};
use crate::meta::index::{index_wf, lemma_same_map_same_entries, Accessor, Entries};
use crate::meta::repo_exported_file_list::model::{ExportedFiles, RepoExportedFileList};
use crate::meta::state::principal_conversions::{
    decode_ledger,
    lemma_decode_ledger,
    state_bytes,
    Ledger,
};
use crate::meta::state::StateAccessor;
use crate::meta::version::accessor::VersionAccessor;
use crate::meta::version::model::Version;
use vstd::prelude::*;

verus! {

/// What a repository has stored: the bytes of the ledger, if there is one,
/// and the bytes under each hash of the indexes and of the contents.
pub struct RepoModel {
    pub state: Option<Seq<u8>>,
    pub indexes: Objects,
    pub blobs: Objects,
}

/// How an operation ends: with the error of the given kind or with none,
/// and with what is stored then.
pub struct Outcome {
    pub error: Option<ErrorKind>,
    pub model: RepoModel,
}

/// The stored ledger. Where none is stored the kind of the error is
/// `PathDoesNotExistInCollection`; where the stored bytes are not the
/// canonical form of a ledger it is `MalformedDocument`.
pub open spec fn loaded_ledger(model: RepoModel) -> Result<Ledger, ErrorKind> {
    match model.state {
        None => Err(ErrorKind::PathDoesNotExistInCollection),
        Some(bytes) => match decode_ledger(bytes) {
            None => Err(ErrorKind::MalformedDocument),
            Some(ledger) => Ok(ledger),
        },
    }
}

/// The index that is stored under `hash`. Where none is stored the kind of
/// the error is `PathDoesNotExistInCollection`; where the stored bytes are
/// not the canonical form of an index it is `RepoFileOperationFailed`.
pub open spec fn loaded_index(model: RepoModel, hash: Seq<char>) -> Result<Entries, ErrorKind> {
    if !model.indexes.contains_key(hash) {
        Err(ErrorKind::PathDoesNotExistInCollection)
    } else {
        match decode_index(model.indexes[hash]) {
            None => Err(ErrorKind::RepoFileOperationFailed),
            Some(entries) => Ok(entries),
        }
    }
}

/// The index of a version: the one it refers to, or the empty one where it
/// refers to none.
pub open spec fn version_index(model: RepoModel, version: Option<Seq<char>>) -> Result<
    Entries,
    ErrorKind,
> {
    match version {
        None => Ok(Entries::empty()),
        Some(hash) => loaded_index(model, hash),
    }
}

/// The entries of the index of the version under `version_id`, where the
/// ledger and the index can be loaded and the ledger holds such a version.
pub open spec fn current_entries(model: RepoModel, version_id: Seq<char>) -> Entries {
    version_index(model, value_of(loaded_ledger(model)->Ok_0, version_id))->Ok_0
}

/// Whether the ledger holds a version under `id`.
pub open spec fn has_version_result(model: RepoModel, id: Seq<char>) -> Result<bool, ErrorKind> {
    match loaded_ledger(model) {
        Err(kind) => Err(kind),
        Ok(ledger) => Ok(has_key(ledger, id)),
    }
}

/// The hash of the index that tracks no path.
pub open spec fn empty_index_hash() -> Seq<char> {
    content_hash(index_bytes(Entries::empty()))
}

/// What adding a version under `id` does: the empty index is stored, and
/// the ledger gets a version that refers to it. Where the ledger cannot be
/// loaded or holds a version under `id` already, the ledger stays as it is.
pub open spec fn add_version_outcome(model: RepoModel, id: Seq<char>) -> Outcome {
    let with_index = RepoModel {
        state: model.state,
        indexes: with_object(model.indexes, index_bytes(Entries::empty())),
        blobs: model.blobs,
    };
    match loaded_ledger(model) {
        Err(kind) => Outcome { error: Some(kind), model: with_index },
        Ok(ledger) => if has_key(ledger, id) {
            Outcome { error: Some(ErrorKind::VersionEntryAlreadyExists), model: with_index }
        } else {
            Outcome {
                error: None,
                model: RepoModel {
                    state: Some(state_bytes(ledger.push((id, Some(empty_index_hash()))))),
                    indexes: with_index.indexes,
                    blobs: model.blobs,
                },
            }
        },
    }
}

/// The entries of the index that tracks what `entries` tracks and `path`
/// with `aspects` besides.
pub open spec fn tracking(entries: Entries, path: Seq<u8>, aspects: TrackedView) -> Entries {
    choose|after: Entries|
        index_wf(after) && #[trigger] as_map(after) == as_map(entries).insert(path, aspects)
}

/// What tracking `path` with `aspects` in the version under `version_id`
/// does: the index of the version with the new entry is stored under its
/// hash, and the version refers to it. Where the ledger or the index cannot
/// be loaded, the ledger holds no such version or the index tracks `path`
/// already, nothing changes.
pub open spec fn track_outcome(
    model: RepoModel,
    version_id: Seq<char>,
    path: Seq<u8>,
    aspects: TrackedView,
) -> Outcome {
    match loaded_ledger(model) {
        Err(kind) => Outcome { error: Some(kind), model },
        Ok(ledger) => if !has_key(ledger, version_id) {
            Outcome { error: Some(ErrorKind::VersionEntryDoesNotExist), model }
        } else {
            match version_index(model, value_of(ledger, version_id)) {
                Err(kind) => Outcome { error: Some(kind), model },
                Ok(entries) => if has_key(entries, path) {
                    Outcome { error: Some(ErrorKind::FileAlreadyTracked), model }
                } else {
                    let bytes = index_bytes(tracking(entries, path, aspects));
                    Outcome {
                        error: None,
                        model: RepoModel {
                            state: Some(
                                state_bytes(put(ledger, version_id, Some(content_hash(bytes)))),
                            ),
                            indexes: with_object(model.indexes, bytes),
                            blobs: model.blobs,
                        },
                    }
                },
            }
        },
    }
}

/// What tracking an ordinary file with the content `blob` does: the content
/// is stored under its hash, and then the path is tracked with that hash.
/// The content stays stored where tracking fails.
pub open spec fn track_ordinary_outcome(
    model: RepoModel,
    version_id: Seq<char>,
    path: Seq<u8>,
    attributes: AttributesView,
    blob: Seq<u8>,
) -> Outcome {
    track_outcome(
        RepoModel {
            state: model.state,
            indexes: model.indexes,
            blobs: with_object(model.blobs, blob),
        },
        version_id,
        path,
        TrackedView::Ordinary(TrackedOrdinaryView { hash: content_hash(blob), attributes }),
    )
}

/// How handing out ends: with the error of the given kind or with none,
/// and with the files that were handed out until then.
pub struct Export {
    pub error: Option<ErrorKind>,
    pub files: ExportedFiles,
}

/// The content that goes with an entry: for an ordinary file what is stored
/// under its hash, for the other kinds nothing.
pub open spec fn content_of(aspects: TrackedView, blobs: Objects) -> Seq<u8> {
    match aspects {
        TrackedView::Ordinary(ordinary) => blobs[ordinary.hash],
        _ => Seq::empty(),
    }
}

/// Whether the content that goes with an entry is missing.
pub open spec fn content_missing(aspects: TrackedView, blobs: Objects) -> bool {
    match aspects {
        TrackedView::Ordinary(ordinary) => !blobs.contains_key(ordinary.hash),
        _ => false,
    }
}

/// What handing out `entries` does: each entry is handed out in its
/// exported form, in the order of the index, an ordinary file with the
/// content that is stored under its hash. Handing out stops, with the kind
/// `PathDoesNotExistInCollection`, at the first ordinary file whose content
/// is not stored.
pub open spec fn export_entries(entries: Entries, blobs: Objects) -> Export
    decreases entries.len(),
{
    if entries.len() == 0 {
        Export { error: None, files: Seq::empty() }
    } else if content_missing(entries[0].1, blobs) {
        Export { error: Some(ErrorKind::PathDoesNotExistInCollection), files: Seq::empty() }
    } else {
        let rest = export_entries(entries.skip(1), blobs);
        Export {
            error: rest.error,
            files: seq![(entries[0].0, exported(entries[0].1, content_of(entries[0].1, blobs)))]
                + rest.files,
        }
    }
}

/// What handing out the files of the version under `version_id` does.
/// Where the ledger or the index cannot be loaded or the ledger holds no
/// such version, nothing is handed out.
pub open spec fn export_outcome(model: RepoModel, version_id: Seq<char>) -> Export {
    match loaded_ledger(model) {
        Err(kind) => Export { error: Some(kind), files: Seq::empty() },
        Ok(ledger) => if !has_key(ledger, version_id) {
            Export { error: Some(ErrorKind::VersionEntryDoesNotExist), files: Seq::empty() }
        } else {
            match version_index(model, value_of(ledger, version_id)) {
                Err(kind) => Export { error: Some(kind), files: Seq::empty() },
                Ok(entries) => export_entries(entries, model.blobs),
            }
        },
    }
}

/// Whether handing out ended as `export` says, for a list that held
/// `before`.
pub open spec fn handed_out(
    r: FcResult<()>,
    before: ExportedFiles,
    after: ExportedFiles,
    export: Export,
) -> bool {
    &&& after == before + export.files
    &&& match export.error {
        None => r is Ok,
        Some(kind) => r matches Err(e) && e.kind == kind,
    }
}

/// Whether `after` is `before` followed by the first few of `files`.
pub open spec fn handed_out_some(
    before: ExportedFiles,
    after: ExportedFiles,
    files: ExportedFiles,
) -> bool {
    exists|n: int| 0 <= n <= files.len() && after == before + #[trigger] files.take(n)
}

/// Puts `done` in front of the files of `rest`.
pub open spec fn after_files(done: ExportedFiles, rest: Export) -> Export {
    Export { error: rest.error, files: done + rest.files }
}

/// Whether an operation ended as `outcome` says.
pub open spec fn ended_as(r: FcResult<()>, model: RepoModel, outcome: Outcome) -> bool {
    &&& model == outcome.model
    &&& match outcome.error {
        None => r is Ok,
        Some(kind) => r matches Err(e) && e.kind == kind,
    }
}

/// Every object of `before` is in `after`, with the bytes it had.
pub open spec fn keeps_objects(before: Objects, after: Objects) -> bool {
    forall|name: Seq<char>| #[trigger]
        before.contains_key(name) ==> after.contains_key(name) && after[name] == before[name]
}

/// A repository on the given collections.
pub struct Repo<
    StateCollection: StateFileCollection,
    Indexes: IndexFileCollection,
    Blobs: TrackedOrdinaryBlobFileCollection,
    J: Journal,
> {
    pub state_collection: StateCollection,
    pub indexes: Indexes,
    pub blobs: Blobs,
    pub journal: J,
}

impl<
    StateCollection: StateFileCollection,
    Indexes: IndexFileCollection,
    Blobs: TrackedOrdinaryBlobFileCollection,
    J: Journal,
> Repo<StateCollection, Indexes, Blobs, J> {
    /// What the repository has stored.
    pub open spec fn model(&self) -> RepoModel {
        RepoModel {
            state: self.state_collection.stored(),
            indexes: self.indexes.stored(),
            blobs: self.blobs.stored(),
        }
    }

    /// Whether the backends of all three collections are reliable.
    pub open spec fn reliable(&self) -> bool {
        self.state_collection.reliable() && self.indexes.reliable() && self.blobs.reliable()
    }

    /// The repository on the given collections.
    pub fn new(state_collection: StateCollection, indexes: Indexes, blobs: Blobs, journal: J) -> (r:
        Self)
        ensures
            r.state_collection == state_collection,
            r.indexes == indexes,
            r.blobs == blobs,
            r.journal == journal,
    {
        Repo { state_collection, indexes, blobs, journal }
    }

    /// The stored ledger.
    fn load_state(&self) -> (r: FcResult<StateFile>)
        ensures
            match r {
                Ok(file) => file.state.wf() && loaded_ledger(self.model()) == Ok::<
                    Ledger,
                    ErrorKind,
                >(file.state@),
                Err(e) => self.reliable() ==> loaded_ledger(self.model()) == Err::<
                    Ledger,
                    ErrorKind,
                >(e.kind),
            },
    {
        match self.state_collection.get_state_file() {
            Ok(file) => {
                proof {
                    lemma_decode_ledger(file.state@);
                }
                Ok(*file)
            },
            Err(e) => Err(e),
        }
    }

    /// The index of `version`.
    fn load_index(&self, version: &Version) -> (r: FcResult<IndexFile>)
        ensures
            match r {
                Ok(file) => file.index.wf() && version_index(self.model(), version@) == Ok::<
                    Entries,
                    ErrorKind,
                >(file.index@),
                Err(e) => self.reliable() ==> version_index(self.model(), version@) == Err::<
                    Entries,
                    ErrorKind,
                >(e.kind),
            },
    {
        match version.get_index_id() {
            Some(index_id) => match self.indexes.get_index_file(index_id.as_str()) {
                Ok(file) => {
                    proof {
                        lemma_decode_index(file.index@);
                    }
                    Ok(*file)
                },
                Err(e) => Err(e),
            },
            None => {
                let file = self.indexes.create_unwritten_empty_index_file_box();
                Ok(*file)
            },
        }
    }

    /// Whether the ledger holds a version under `id`. It fails where the
    /// ledger cannot be loaded.
    pub fn has_version(&self, id: &str) -> (r: FcResult<bool>)
        ensures
            match r {
                Ok(found) => has_version_result(self.model(), id@) == Ok::<bool, ErrorKind>(found),
                Err(e) => self.reliable() ==> has_version_result(self.model(), id@) == Err::<
                    bool,
                    ErrorKind,
                >(e.kind),
            },
    {
        match self.load_state() {
            Ok(file) => Ok(file.state.has_version(id)),
            Err(e) => Err(e),
        }
    }

    /// Adds a version under `id` that refers to the empty index. It fails,
    /// with the kind `VersionEntryAlreadyExists`, where the ledger holds a
    /// version under `id`, and where the ledger cannot be loaded.
    pub fn add_version(&mut self, id: &str) -> (r: FcResult<()>)
        ensures
            final(self).reliable() == old(self).reliable(),
            old(self).reliable() ==> ended_as(
                r,
                final(self).model(),
                add_version_outcome(old(self).model(), id@),
            ),
            r is Ok ==> ended_as(
                r,
                final(self).model(),
                add_version_outcome(old(self).model(), id@),
            ),
            keeps_objects(old(self).model().indexes, final(self).model().indexes),
            final(self).model().blobs == old(self).model().blobs,
    {
        let ghost before = self.model();
        let index_file = self.indexes.create_unwritten_empty_index_file_box();
        let hash = match self.indexes.put_index_file(index_file) {
            Ok(hash) => hash,
            Err(e) => {
                proof {
                    lemma_kept(before.indexes, self.model().indexes, empty_index_hash());
                }
                return Err(e);
            },
        };
        proof {
            lemma_kept(before.indexes, self.model().indexes, empty_index_hash());
        }
        let mut version = Version::new();
        let _ = version.set_index_id(hash.as_str());
        let mut state_file = match self.load_state() {
            Ok(file) => file,
            Err(e) => {
                return Err(e);
            },
        };
        match state_file.state.add_version(id, version) {
            Ok(_) => {},
            Err(e) => {
                return Err(e);
            },
        }
        match self.state_collection.put_state_file(Box::new(state_file)) {
            Ok(_) => Ok(()),
            Err(e) => Err(e),
        }
    }

    /// Tracks `path` with `aspects` in the version under `version_id`.
    fn track(&mut self, version_id: &str, path: &[u8], aspects: &TrackedFileAspects) -> (r: FcResult<
        (),
    >)
        ensures
            final(self).reliable() == old(self).reliable(),
            old(self).reliable() ==> ended_as(
                r,
                final(self).model(),
                track_outcome(old(self).model(), version_id@, path@, aspects@),
            ),
            r is Ok ==> ended_as(
                r,
                final(self).model(),
                track_outcome(old(self).model(), version_id@, path@, aspects@),
            ),
            keeps_objects(old(self).model().indexes, final(self).model().indexes),
            final(self).model().blobs == old(self).model().blobs,
    {
        let ghost before = self.model();
        let mut state_file = match self.load_state() {
            Ok(file) => file,
            Err(e) => {
                return Err(e);
            },
        };
        let ghost ledger = state_file.state@;
        let mut version = match state_file.state.get_version(version_id) {
            Ok(version) => version,
            Err(e) => {
                return Err(e);
            },
        };
        let mut index_file = match self.load_index(&version) {
            Ok(file) => file,
            Err(e) => {
                return Err(e);
            },
        };
        let ghost entries = index_file.index@;
        match index_file.index.track_file(path, aspects) {
            Ok(_) => {},
            Err(e) => {
                return Err(e);
            },
        }
        let ghost after = index_file.index@;
        proof {
            let chosen = tracking(entries, path@, aspects@);
            assert(index_wf(after) && as_map(after) == as_map(entries).insert(path@, aspects@));
            lemma_same_map_same_entries(after, chosen);
        }
        let hash = match self.indexes.put_index_file(Box::new(index_file)) {
            Ok(hash) => hash,
            Err(e) => {
                proof {
                    lemma_kept(
                        before.indexes,
                        self.model().indexes,
                        content_hash(index_bytes(after)),
                    );
                }
                return Err(e);
            },
        };
        proof {
            lemma_kept(before.indexes, self.model().indexes, content_hash(index_bytes(after)));
        }
        let _ = version.set_index_id(hash.as_str());
        state_file.state.put_version(version_id, version);
        match self.state_collection.put_state_file(Box::new(state_file)) {
            Ok(_) => Ok(()),
            Err(e) => Err(e),
        }
    }

    /// Tracks that nothing is to exist at `file_path` in the version under
    /// `version_id`.
    ///
    /// Whoever applies the version has to see to it that nothing exists at
    /// that path, and may remove what it finds there.
    ///
    /// It fails where the ledger or the index of the version cannot be
    /// loaded, where the ledger holds no version under `version_id` (kind
    /// `VersionEntryDoesNotExist`) and where the path is tracked already
    /// (kind `FileAlreadyTracked`). Nothing is changed then.
    pub fn track_non_existing(
        &mut self,
        version_id: &str,
        file_path: &[u8],
        trackable_aspects: TrackableNonExistingAspects,
    ) -> (r: FcResult<()>)
        ensures
            final(self).reliable() == old(self).reliable(),
            old(self).reliable() ==> ended_as(
                r,
                final(self).model(),
                track_outcome(
                    old(self).model(),
                    version_id@,
                    file_path@,
                    TrackedView::NonExisting,
                ),
            ),
            r is Ok ==> ended_as(
                r,
                final(self).model(),
                track_outcome(
                    old(self).model(),
                    version_id@,
                    file_path@,
                    TrackedView::NonExisting,
                ),
            ),
            keeps_objects(old(self).model().indexes, final(self).model().indexes),
            final(self).model().blobs == old(self).model().blobs,
    {
        self.track(
            version_id,
            file_path,
            &TrackedFileAspects::NonExisting(
                TrackedNonExistingAspects::from_trackable(trackable_aspects),
            ),
        )
    }

    /// Tracks the directory at `file_path` in the version under
    /// `version_id`. It fails as `track_non_existing` does.
    pub fn track_directory(
        &mut self,
        version_id: &str,
        file_path: &[u8],
        trackable_aspects: TrackableDirectoryAspects,
    ) -> (r: FcResult<()>)
        ensures
            final(self).reliable() == old(self).reliable(),
            old(self).reliable() ==> ended_as(
                r,
                final(self).model(),
                track_outcome(
                    old(self).model(),
                    version_id@,
                    file_path@,
                    TrackedView::Directory(trackable_aspects@),
                ),
            ),
            r is Ok ==> ended_as(
                r,
                final(self).model(),
                track_outcome(
                    old(self).model(),
                    version_id@,
                    file_path@,
                    TrackedView::Directory(trackable_aspects@),
                ),
            ),
            keeps_objects(old(self).model().indexes, final(self).model().indexes),
            final(self).model().blobs == old(self).model().blobs,
    {
        self.track(
            version_id,
            file_path,
            &TrackedFileAspects::Directory(TrackedDirectoryAspects::from_trackable(trackable_aspects)),
        )
    }

    /// Tracks the ordinary file at `file_path` with the content `blob` in
    /// the version under `version_id`. The content is stored under its
    /// hash, and the entry holds that hash.
    ///
    /// It fails as `track_non_existing` does. The content stays stored
    /// where it fails.
    pub fn track_ordinary(
        &mut self,
        version_id: &str,
        file_path: &[u8],
        trackable_aspects: TrackableOrdinaryAspects,
        blob: Blob,
    ) -> (r: FcResult<()>)
        ensures
            final(self).reliable() == old(self).reliable(),
            old(self).reliable() ==> ended_as(
                r,
                final(self).model(),
                track_ordinary_outcome(
                    old(self).model(),
                    version_id@,
                    file_path@,
                    trackable_aspects@,
                    blob@,
                ),
            ),
            r is Ok ==> ended_as(
                r,
                final(self).model(),
                track_ordinary_outcome(
                    old(self).model(),
                    version_id@,
                    file_path@,
                    trackable_aspects@,
                    blob@,
                ),
            ),
            keeps_objects(old(self).model().indexes, final(self).model().indexes),
            keeps_objects(old(self).model().blobs, final(self).model().blobs),
    {
        let ghost before = self.model();
        let file = TrackedOrdinaryBlobFile { blob };
        let hash = match self.blobs.put_file(&file) {
            Ok(hash) => hash,
            Err(e) => {
                proof {
                    lemma_kept(before.blobs, self.model().blobs, content_hash(blob@));
                }
                return Err(e);
            },
        };
        proof {
            lemma_kept(before.blobs, self.model().blobs, content_hash(blob@));
        }
        self.track(
            version_id,
            file_path,
            &TrackedFileAspects::Ordinary(
                TrackedOrdinaryAspects::from_trackable(trackable_aspects, hash.as_str()),
            ),
        )
    }

    /// Tracks the symlink at `file_path` in the version under
    /// `version_id`. It fails as `track_non_existing` does.
    pub fn track_symlink(
        &mut self,
        version_id: &str,
        file_path: &[u8],
        trackable_aspects: TrackableSymlinkAspects,
    ) -> (r: FcResult<()>)
        ensures
            final(self).reliable() == old(self).reliable(),
            old(self).reliable() ==> ended_as(
                r,
                final(self).model(),
                track_outcome(
                    old(self).model(),
                    version_id@,
                    file_path@,
                    TrackedView::Symlink(trackable_aspects@),
                ),
            ),
            r is Ok ==> ended_as(
                r,
                final(self).model(),
                track_outcome(
                    old(self).model(),
                    version_id@,
                    file_path@,
                    TrackedView::Symlink(trackable_aspects@),
                ),
            ),
            keeps_objects(old(self).model().indexes, final(self).model().indexes),
            final(self).model().blobs == old(self).model().blobs,
    {
        self.track(
            version_id,
            file_path,
            &TrackedFileAspects::Symlink(TrackedSymlinkAspects::from_trackable(trackable_aspects)),
        )
    }

    /// Hands out the files of the version under `version_id`: adds each
    /// entry of the index of the version to `file_list`, in the order of
    /// the paths, an ordinary file together with its content. A version
    /// that refers to no index has no files.
    ///
    /// It fails where the ledger or the index cannot be loaded, where the
    /// ledger holds no version under `version_id` (kind
    /// `VersionEntryDoesNotExist`) and where the content of an ordinary file
    /// is not stored (kind `PathDoesNotExistInCollection`). The files that
    /// stand before that file in the index are in the list then.
    pub fn get_files<L: RepoExportedFileList>(&self, version_id: &str, file_list: &mut L) -> (r:
        FcResult<()>)
        ensures
            final(file_list).accepting() == old(file_list).accepting(),
            self.reliable() && old(file_list).accepting() ==> handed_out(
                r,
                old(file_list).files(),
                final(file_list).files(),
                export_outcome(self.model(), version_id@),
            ),
            r is Ok ==> handed_out(
                r,
                old(file_list).files(),
                final(file_list).files(),
                export_outcome(self.model(), version_id@),
            ),
            handed_out_some(
                old(file_list).files(),
                final(file_list).files(),
                export_outcome(self.model(), version_id@).files,
            ),
    {
        let ghost before = file_list.files();
        let ghost all = export_outcome(self.model(), version_id@).files;
        proof {
            assert(before + ExportedFiles::empty() =~= before);
            assert(all.take(0) =~= ExportedFiles::empty());
        }
        let state_file = match self.load_state() {
            Ok(file) => file,
            Err(e) => {
                return Err(e);
            },
        };
        let version = match state_file.state.get_version(version_id) {
            Ok(version) => version,
            Err(e) => {
                return Err(e);
            },
        };
        let index_file = match self.load_index(&version) {
            Ok(file) => file,
            Err(e) => {
                return Err(e);
            },
        };
        let index = &index_file.index;
        let ghost entries = index@;
        let ghost blobs = self.model().blobs;
        let ghost whole = export_entries(entries, blobs);
        let ghost mut done = ExportedFiles::empty();
        proof {
            assert(entries.skip(0) =~= entries);
            assert(done + whole.files =~= whole.files);
            assert(whole.files.take(0) =~= ExportedFiles::empty());
        }
        let mut i: usize = 0;
        while i < index.len()
            invariant
                i <= index@.len(),
                entries == index@,
                blobs == self.model().blobs,
                whole == export_entries(entries, blobs),
                whole == export_outcome(self.model(), version_id@),
                whole == after_files(done, export_entries(entries.skip(i as int), blobs)),
                file_list.files() == before + done,
                handed_out_some(before, file_list.files(), whole.files),
                before == old(file_list).files(),
                file_list.accepting() == old(file_list).accepting(),
            decreases index@.len() - i,
        {
            let ghost here = entries.skip(i as int);
            let ghost rest = export_entries(entries.skip(i + 1), blobs);
            proof {
                assert(here[0] == entries[i as int]);
                assert(here.skip(1) =~= entries.skip(i + 1));
            }
            let path = vstd::slice::slice_to_vec(index.path_at(i));
            let added = match index.aspects_at(i) {
                TrackedFileAspects::NonExisting(aspects) => file_list.add_non_existing(
                    path,
                    *aspects,
                ),
                TrackedFileAspects::Directory(aspects) => file_list.add_directory(
                    path,
                    aspects.clone(),
                ),
                TrackedFileAspects::Ordinary(aspects) => {
                    let blob_file = match self.blobs.get_file(aspects.hash.as_str()) {
                        Ok(file) => file,
                        Err(e) => {
                            proof {
                                if self.reliable() {
                                    assert(content_missing(here[0].1, blobs));
                                    assert(done + ExportedFiles::empty() =~= done);
                                }
                            }
                            return Err(e);
                        },
                    };
                    file_list.add_ordinary(path, aspects.clone(), &*blob_file)
                },
                TrackedFileAspects::Symlink(aspects) => file_list.add_symlink(
                    path,
                    aspects.clone(),
                ),
            };
            match added {
                Ok(_) => {},
                Err(e) => {
                    return Err(e);
                },
            }
            proof {
                let file = (here[0].0, exported(here[0].1, content_of(here[0].1, blobs)));
                assert(file_list.files() =~= before + done.push(file));
                assert(done.push(file) + rest.files =~= done + (seq![file] + rest.files));
                done = done.push(file);
                assert(whole.files.take(done.len() as int) =~= done);
            }
            i += 1;
        }
        proof {
            assert(entries.skip(i as int).len() == 0);
            assert(done + ExportedFiles::empty() =~= done);
        }
        Ok(())
    }
}

/// Where every name but `name` holds what it held, and `name` holds what it
/// held if it held anything, every object is kept.
pub proof fn lemma_kept(before: Objects, after: Objects, name: Seq<char>)
    requires
        after.remove(name) == before.remove(name),
        before.contains_key(name) ==> after == before,
    ensures
        keeps_objects(before, after),
{
    assert forall|other: Seq<char>| #[trigger] before.contains_key(other) implies after.contains_key(
        other,
    ) && after[other] == before[other] by {
        if other != name {
            assert(before.remove(name).contains_key(other));
            assert(after.remove(name).contains_key(other));
            assert(after.remove(name)[other] == before.remove(name)[other]);
        }
    }
}

} // verus!
