use filecastalogue::error::{ErrorKind, FcResult};
use filecastalogue::files::blob::BlobProvider;
use filecastalogue::files::hashable::hash_bytes;
use filecastalogue::files::index_collection::{IndexFileCollection, MiscIndexFileCollection};
use filecastalogue::files::state_collection::{MiscStateFileCollection, StateFileCollection};
use filecastalogue::files::tracked_ordinary_blob_collection::{
    MiscTrackedOrdinaryBlobFileCollection, TrackedOrdinaryBlobFileCollection,
};
use filecastalogue::globals::STATE_FILE_NAME;
use filecastalogue::journal::OptimisticDummyJournal;
use filecastalogue::meta::blob::model::Blob;
use filecastalogue::meta::file_aspects::aspects::directory::TrackableDirectoryAspects;
use filecastalogue::meta::file_aspects::aspects::non_existing::TrackableNonExistingAspects;
use filecastalogue::meta::file_aspects::aspects::ordinary::TrackableOrdinaryAspects;
use filecastalogue::meta::file_aspects::aspects::symlink::TrackableSymlinkAspects;
use filecastalogue::meta::file_aspects::attributes::Attributes;
use filecastalogue::meta::file_aspects::enums::RepoExportedFileAspects;
use filecastalogue::meta::repo_exported_file_list::model::{
    RepoExportedFile, RepoExportedFileList, RepoExportedHeapFile, RepoExportedVecFileList,
};
use filecastalogue::meta::state::StateAccessor;
use filecastalogue::meta::version::accessor::VersionAccessor;
use filecastalogue::opaque_collection_handler::drivers::memory::MemoryDir;
use filecastalogue::opaque_collection_handler::OpaqueCollectionHandler;
use filecastalogue::repo::Repo;

const HASH_OF_NOTHING: &str = "af1349b9f5f9a1a6a0404dea36dcc9499bcb25c9adc112b7cc9a93cae41f3262";

type MemoryRepo = Repo<
    MiscStateFileCollection<MemoryDir>,
    MiscIndexFileCollection<MemoryDir>,
    MiscTrackedOrdinaryBlobFileCollection<MemoryDir>,
    OptimisticDummyJournal,
>;

fn repo_without_ledger() -> MemoryRepo {
    Repo::new(
        MiscStateFileCollection::new(MemoryDir::new("repo"), String::from(STATE_FILE_NAME)),
        MiscIndexFileCollection::new(MemoryDir::new("repo/indexes")),
        MiscTrackedOrdinaryBlobFileCollection::new(MemoryDir::new("repo/blobs")),
        OptimisticDummyJournal::new(),
    )
}

fn empty_repo() -> MemoryRepo {
    let mut repo = repo_without_ledger();
    let empty = repo.state_collection.create_unwritten_empty_state_file_box();
    repo.state_collection.put_state_file(empty).unwrap();
    repo
}

fn root() -> Attributes {
    Attributes { posix_user: String::from("root"), posix_group: String::from("root") }
}

fn files_of(repo: &MemoryRepo, version_id: &str) -> FcResult<Vec<RepoExportedHeapFile>> {
    let mut file_list = RepoExportedVecFileList::new();
    repo.get_files(version_id, &mut file_list)?;
    Ok(file_list.consume_as_vec())
}

fn kind_of<T>(result: FcResult<T>) -> ErrorKind {
    match result {
        Ok(_) => panic!("the operation went through"),
        Err(e) => e.kind,
    }
}

#[test]
fn a_version_of_an_empty_repository_and_a_directory_in_it() {
    let mut repo = empty_repo();
    repo.add_version("v0").unwrap();
    assert_eq!(repo.has_version("v0").unwrap(), true);
    assert_eq!(files_of(&repo, "v0").unwrap(), Vec::new());

    repo.track_directory("v0", b"/etc", TrackableDirectoryAspects::new(root())).unwrap();
    let files = files_of(&repo, "v0").unwrap();
    assert_eq!(files.len(), 1);
    assert_eq!(files[0].get_path(), b"/etc".to_vec());
    match files[0].get_aspects() {
        RepoExportedFileAspects::Directory(directory) => {
            assert_eq!(directory.attributes.posix_user, "root");
            assert_eq!(directory.attributes.posix_group, "root");
        }
        other => panic!("not a directory: {:?}", other),
    }
}

#[test]
fn a_version_is_added_once() {
    let mut repo = empty_repo();
    assert_eq!(repo.has_version("v1").unwrap(), false);
    repo.add_version("v1").unwrap();
    assert_eq!(repo.has_version("v1").unwrap(), true);
    let ledger = repo.state_collection.handler.read_file(STATE_FILE_NAME).unwrap();
    assert_eq!(kind_of(repo.add_version("v1")), ErrorKind::VersionEntryAlreadyExists);
    assert_eq!(repo.has_version("v1").unwrap(), true);
    assert_eq!(repo.state_collection.handler.read_file(STATE_FILE_NAME).unwrap(), ledger);
    assert_eq!(
        String::from_utf8(ledger).unwrap(),
        format!("version v1 {}\n", HASH_OF_NOTHING)
    );
}

#[test]
fn a_new_version_refers_to_the_stored_empty_index() {
    let mut repo = empty_repo();
    repo.add_version("v0").unwrap();
    let state = repo.state_collection.get_state_file().unwrap().state;
    assert_eq!(state.get_version("v0").unwrap().get_index_id(), Some(String::from(HASH_OF_NOTHING)));
    assert_eq!(repo.indexes.has_index(HASH_OF_NOTHING).unwrap(), true);
    repo.add_version("v1").unwrap();
    let state = repo.state_collection.get_state_file().unwrap().state;
    assert_eq!(state.get_version("v1").unwrap().get_index_id(), Some(String::from(HASH_OF_NOTHING)));
    assert_eq!(state.len(), 2);
}

#[test]
fn an_ordinary_file_is_handed_out_with_its_content() {
    let mut repo = empty_repo();
    repo.add_version("v").unwrap();
    let blob = b"Brian was here. Briefly.".to_vec();
    repo.track_ordinary(
        "v",
        b"/a",
        TrackableOrdinaryAspects::new(root()),
        Blob::from_vec(blob.clone()),
    )
    .unwrap();

    let files = files_of(&repo, "v").unwrap();
    let for_a: Vec<&RepoExportedHeapFile> =
        files.iter().filter(|file| file.path == b"/a".to_vec()).collect();
    assert_eq!(for_a.len(), 1);
    assert_eq!(files.len(), 1);
    match &for_a[0].aspects {
        RepoExportedFileAspects::Ordinary(ordinary) => {
            assert_eq!(ordinary.repo_blob_hash(), hash_bytes(&blob));
            assert_eq!(ordinary.blob_provider.clone_blob().unwrap().into_vec(), blob);
            assert_eq!(ordinary.attributes, root());
        }
        other => panic!("not an ordinary file: {:?}", other),
    }
    assert_eq!(repo.blobs.get_file(&hash_bytes(&blob)).unwrap().blob.into_vec(), blob);
}

#[test]
fn a_path_at_which_nothing_is_to_exist_is_handed_out_as_such() {
    let mut repo = empty_repo();
    repo.add_version("v").unwrap();
    repo.track_non_existing("v", b"/gone", TrackableNonExistingAspects::new()).unwrap();
    let files = files_of(&repo, "v").unwrap();
    assert_eq!(files.len(), 1);
    assert_eq!(files[0].path, b"/gone".to_vec());
    assert!(matches!(files[0].aspects, RepoExportedFileAspects::NonExisting(_)));
    assert!(!files.iter().any(|file| file.path == b"/gone".to_vec()
        && !matches!(file.aspects, RepoExportedFileAspects::NonExisting(_))));
}

#[test]
fn a_symlink_is_handed_out_with_its_target() {
    let mut repo = empty_repo();
    repo.add_version("v").unwrap();
    repo.track_symlink("v", b"/l", TrackableSymlinkAspects::new(String::from("/etc/x y"))).unwrap();
    let files = files_of(&repo, "v").unwrap();
    assert_eq!(files.len(), 1);
    match &files[0].aspects {
        RepoExportedFileAspects::Symlink(symlink) => assert_eq!(symlink.linked_to, "/etc/x y"),
        other => panic!("not a symlink: {:?}", other),
    }
}

#[test]
fn files_are_handed_out_in_the_order_of_their_paths() {
    let mut repo = empty_repo();
    repo.add_version("v").unwrap();
    repo.track_symlink("v", b"/z", TrackableSymlinkAspects::new(String::from("/a"))).unwrap();
    repo.track_ordinary("v", b"/m", TrackableOrdinaryAspects::new(root()), Blob::from_vec(vec![1]))
        .unwrap();
    repo.track_non_existing("v", &[0x2f, 0xff], TrackableNonExistingAspects::new()).unwrap();
    repo.track_directory("v", b"/a", TrackableDirectoryAspects::new(root())).unwrap();
    let paths: Vec<Vec<u8>> =
        files_of(&repo, "v").unwrap().into_iter().map(|file| file.path).collect();
    assert_eq!(paths, vec![b"/a".to_vec(), b"/m".to_vec(), b"/z".to_vec(), vec![0x2f, 0xff]]);
}

#[test]
fn tracking_a_tracked_path_in_a_version_fails_and_changes_nothing() {
    let mut repo = empty_repo();
    repo.add_version("v").unwrap();
    repo.track_directory("v", b"/etc", TrackableDirectoryAspects::new(root())).unwrap();
    let ledger = repo.state_collection.handler.read_file(STATE_FILE_NAME).unwrap();
    assert_eq!(
        kind_of(repo.track_non_existing("v", b"/etc", TrackableNonExistingAspects::new())),
        ErrorKind::FileAlreadyTracked
    );
    assert_eq!(repo.state_collection.handler.read_file(STATE_FILE_NAME).unwrap(), ledger);
    let files = files_of(&repo, "v").unwrap();
    assert_eq!(files.len(), 1);
    assert!(matches!(files[0].aspects, RepoExportedFileAspects::Directory(_)));
}

#[test]
fn versions_do_not_see_each_other_and_share_what_is_equal() {
    let mut repo = empty_repo();
    repo.add_version("v1").unwrap();
    repo.add_version("v2").unwrap();
    repo.track_directory("v1", b"/etc", TrackableDirectoryAspects::new(root())).unwrap();
    assert_eq!(files_of(&repo, "v1").unwrap().len(), 1);
    assert_eq!(files_of(&repo, "v2").unwrap().len(), 0);

    repo.track_directory("v2", b"/etc", TrackableDirectoryAspects::new(root())).unwrap();
    let state = repo.state_collection.get_state_file().unwrap().state;
    let first = state.get_version("v1").unwrap().get_index_id().unwrap();
    let second = state.get_version("v2").unwrap().get_index_id().unwrap();
    assert_eq!(first, second);
    assert_eq!(first, hash_bytes(b"directory /etc root root\n"));
    assert_eq!(repo.indexes.has_index(HASH_OF_NOTHING).unwrap(), true);
    assert!(repo.indexes.get_index_file(HASH_OF_NOTHING).unwrap().index.len() == 0);
}

#[test]
fn nothing_can_be_done_without_a_ledger_or_with_a_broken_one() {
    let mut repo = repo_without_ledger();
    assert_eq!(kind_of(repo.has_version("v")), ErrorKind::PathDoesNotExistInCollection);
    assert_eq!(kind_of(repo.add_version("v")), ErrorKind::PathDoesNotExistInCollection);
    assert_eq!(
        kind_of(repo.track_non_existing("v", b"/a", TrackableNonExistingAspects::new())),
        ErrorKind::PathDoesNotExistInCollection
    );
    assert_eq!(kind_of(files_of(&repo, "v")), ErrorKind::PathDoesNotExistInCollection);

    let mut repo = empty_repo();
    repo.state_collection.handler.write_file(STATE_FILE_NAME, b"{}").unwrap();
    assert_eq!(kind_of(repo.has_version("v")), ErrorKind::MalformedDocument);
    assert_eq!(kind_of(repo.add_version("v")), ErrorKind::MalformedDocument);
    assert_eq!(kind_of(files_of(&repo, "v")), ErrorKind::MalformedDocument);
}

#[test]
fn a_version_that_is_not_there_has_no_files_and_takes_none() {
    let mut repo = empty_repo();
    assert_eq!(
        kind_of(repo.track_directory("v", b"/a", TrackableDirectoryAspects::new(root()))),
        ErrorKind::VersionEntryDoesNotExist
    );
    assert_eq!(
        kind_of(repo.track_ordinary(
            "v",
            b"/a",
            TrackableOrdinaryAspects::new(root()),
            Blob::from_vec(vec![1])
        )),
        ErrorKind::VersionEntryDoesNotExist
    );
    assert_eq!(kind_of(files_of(&repo, "v")), ErrorKind::VersionEntryDoesNotExist);
    // The content was stored all the same; nothing refers to it.
    assert_eq!(repo.blobs.has_file(&hash_bytes(&[1])).unwrap(), true);
}

#[test]
fn a_version_whose_index_is_missing_or_broken_cannot_be_read() {
    let mut repo = empty_repo();
    let mut state_file = repo.state_collection.get_state_file().unwrap();
    state_file
        .state
        .add_version("1", filecastalogue::meta::version::model::Version::new_with_index("MOCKHASH"))
        .unwrap();
    state_file
        .state
        .add_version("none", filecastalogue::meta::version::model::Version::new())
        .unwrap();
    repo.state_collection.put_state_file(state_file).unwrap();
    assert_eq!(kind_of(files_of(&repo, "1")), ErrorKind::PathDoesNotExistInCollection);
    assert_eq!(
        kind_of(repo.track_non_existing("1", b"/a", TrackableNonExistingAspects::new())),
        ErrorKind::PathDoesNotExistInCollection
    );

    repo.indexes.handler.create_file("MOCKHASH").unwrap();
    repo.indexes.handler.write_file("MOCKHASH", b"not an index").unwrap();
    assert_eq!(kind_of(files_of(&repo, "1")), ErrorKind::RepoFileOperationFailed);

    // A version that refers to no index has no files and can take some.
    assert_eq!(files_of(&repo, "none").unwrap().len(), 0);
    repo.track_non_existing("none", b"/a", TrackableNonExistingAspects::new()).unwrap();
    assert_eq!(files_of(&repo, "none").unwrap().len(), 1);
}

#[test]
fn handing_out_stops_at_a_content_that_is_missing() {
    let mut repo = empty_repo();
    repo.add_version("v").unwrap();
    repo.track_directory("v", b"/a", TrackableDirectoryAspects::new(root())).unwrap();
    repo.track_ordinary("v", b"/b", TrackableOrdinaryAspects::new(root()), Blob::from_vec(vec![1]))
        .unwrap();
    repo.track_directory("v", b"/c", TrackableDirectoryAspects::new(root())).unwrap();
    repo.blobs = MiscTrackedOrdinaryBlobFileCollection::new(MemoryDir::new("repo/blobs"));

    let mut file_list = RepoExportedVecFileList::new();
    let error = repo.get_files("v", &mut file_list).unwrap_err();
    assert_eq!(error.kind, ErrorKind::PathDoesNotExistInCollection);
    assert_eq!(file_list.len(), 1);
    assert_eq!(file_list.get(0).path, b"/a".to_vec());
}

#[test]
fn stored_objects_stay_as_they_are() {
    let mut repo = empty_repo();
    repo.add_version("v").unwrap();
    repo.track_directory("v", b"/a", TrackableDirectoryAspects::new(root())).unwrap();
    let first = hash_bytes(b"directory /a root root\n");
    let stored = repo.indexes.handler.read_file(&first).unwrap();
    repo.track_directory("v", b"/b", TrackableDirectoryAspects::new(root())).unwrap();
    repo.track_ordinary("v", b"/c", TrackableOrdinaryAspects::new(root()), Blob::from_vec(vec![]))
        .unwrap();
    assert_eq!(repo.indexes.handler.read_file(&first).unwrap(), stored);
    assert_eq!(repo.indexes.handler.read_file(HASH_OF_NOTHING).unwrap(), Vec::<u8>::new());
    assert_eq!(repo.blobs.handler.read_file(HASH_OF_NOTHING).unwrap(), Vec::<u8>::new());
}
