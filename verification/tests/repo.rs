use filecastalogue::error::FcResult;
use filecastalogue::files::index_collection::MiscIndexFileCollection;
use filecastalogue::files::state_collection::MiscStateFileCollection;
use filecastalogue::files::tracked_ordinary_blob_collection::MiscTrackedOrdinaryBlobFileCollection;
use filecastalogue::globals::STATE_FILE_NAME;
use filecastalogue::journal::OptimisticDummyJournal;
use filecastalogue::meta::file_aspects::aspects::non_existing::TrackableNonExistingAspects;
use filecastalogue::meta::repo_exported_file_list::model::{
    RepoExportedFile, RepoExportedFileList, RepoExportedVecFileList,
};
use filecastalogue::opaque_collection_handler::drivers::memory::MemoryDir;
use filecastalogue::opaque_collection_handler::OpaqueCollectionHandler;
use filecastalogue::repo::Repo;

const NON_EXISTENT_VERSION_ID: &str = "0";
const MINIMAL_STATE_TEXT: &str = "version 1 MOCKHASH\n";

type MemoryRepo = Repo<
    MiscStateFileCollection<MemoryDir>,
    MiscIndexFileCollection<MemoryDir>,
    MiscTrackedOrdinaryBlobFileCollection<MemoryDir>,
    OptimisticDummyJournal,
>;

// A repository in memory whose ledger holds one version, "1", that refers
// to an index that is not stored.
fn create_minimal_repo_struct() -> FcResult<MemoryRepo> {
    let mut state_dir = MemoryDir::new("minimal_repo");
    state_dir.create_file(STATE_FILE_NAME)?;
    state_dir.write_file(STATE_FILE_NAME, MINIMAL_STATE_TEXT.as_bytes())?;
    Ok(Repo::new(
        MiscStateFileCollection::new(state_dir, String::from(STATE_FILE_NAME)),
        MiscIndexFileCollection::new(MemoryDir::new("minimal_repo/blobs")),
        MiscTrackedOrdinaryBlobFileCollection::new(MemoryDir::new("minimal_repo/blobs")),
        OptimisticDummyJournal::new(),
    ))
}

#[test]
fn has_version_returns_false_when_repo_does_not_have_version() {
    let repo = create_minimal_repo_struct().unwrap();
    assert_eq!(repo.has_version(NON_EXISTENT_VERSION_ID).unwrap(), false);
}

#[test]
fn add_version_succeeds() {
    let mut repo = create_minimal_repo_struct().unwrap();
    let new_version_id = "2";
    repo.add_version(new_version_id).unwrap();

    assert_eq!(repo.has_version(new_version_id).unwrap(), true);
}

#[test]
fn track_non_existing_succeeds() {
    let file_path = b"/this/does/not/exist".to_vec();
    let trackable_aspects = TrackableNonExistingAspects::new();

    let mut repo = create_minimal_repo_struct().unwrap();

    let new_version_id = "2";
    let maybe_added = repo.add_version(new_version_id);
    assert_eq!(
        maybe_added.is_err(),
        false,
        "Running `repo.add_version()` returned an error: {:?}",
        maybe_added
    );

    repo.track_non_existing(new_version_id, &file_path, trackable_aspects).unwrap();

    let mut file_list = RepoExportedVecFileList::new();
    repo.get_files(new_version_id, &mut file_list).unwrap();

    assert!(file_list
        .consume_as_vec()
        .into_iter()
        .any(|tracked_file| -> bool { tracked_file.get_path() == file_path }));
}
