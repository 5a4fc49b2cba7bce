use filecastalogue::files::blob::BlobProvider;
use filecastalogue::journal::OptimisticDummyJournal;
use filecastalogue::meta::blob::model::Blob;
use filecastalogue::meta::blob::repo_exported::RepoExportedHeapOrdinaryBlobProvider;
use filecastalogue::meta::file_aspects::aspects::directory::{
    RepoExportedDirectoryAspects, TrackableDirectoryAspects, TrackedDirectoryAspects,
};
use filecastalogue::meta::file_aspects::aspects::non_existing::{
    RepoExportedNonExistingAspects, TrackableNonExistingAspects, TrackedNonExistingAspects,
};
use filecastalogue::meta::file_aspects::aspects::ordinary::{
    RepoExportedOrdinaryAspects, TrackableOrdinaryAspects, TrackedOrdinaryAspects,
};
use filecastalogue::meta::file_aspects::aspects::symlink::{
    RepoExportedSymlinkAspects, TrackableSymlinkAspects, TrackedSymlinkAspects,
};
use filecastalogue::meta::file_aspects::attributes::Attributes;
use filecastalogue::meta::file_aspects::enums::{RepoExportedFileAspects, TrackedFileAspects};
use filecastalogue::meta::repo_exported_file_list::model::{
    RepoExportedFile, RepoExportedFileInitializer, RepoExportedFileList, RepoExportedHeapFile,
    RepoExportedVecFileList,
};
use filecastalogue::files::tracked_ordinary_blob::TrackedOrdinaryBlobFile;

fn attributes() -> Attributes {
    Attributes { posix_user: String::from("nginx"), posix_group: String::from("www") }
}

#[test]
fn a_directory_keeps_its_attributes_through_the_stages() {
    let trackable = TrackableDirectoryAspects::new(attributes());
    let in_index = TrackedDirectoryAspects::from_trackable(trackable.clone());
    assert_eq!(in_index.attributes, attributes());
    assert_eq!(in_index, TrackedDirectoryAspects::new(attributes()));
    let repo_exported = RepoExportedDirectoryAspects::from_tracked(in_index.clone());
    assert_eq!(repo_exported, RepoExportedDirectoryAspects::new(attributes()));
    assert_eq!(repo_exported.clone().attributes, trackable.attributes);
}

#[test]
fn a_symlink_keeps_its_target_through_the_stages() {
    let trackable = TrackableSymlinkAspects::new(String::from("/target"));
    let in_index = TrackedSymlinkAspects::from_trackable(trackable.clone());
    assert_eq!(in_index, TrackedSymlinkAspects::new(String::from("/target")));
    let repo_exported = RepoExportedSymlinkAspects::from_tracked(in_index.clone());
    assert_eq!(repo_exported, RepoExportedSymlinkAspects::new(String::from("/target")));
    assert_eq!(repo_exported.clone().linked_to, "/target");
}

#[test]
fn an_ordinary_file_gets_its_hash_when_tracked_and_its_content_when_handed_out() {
    let trackable = TrackableOrdinaryAspects::new(attributes());
    let in_index = TrackedOrdinaryAspects::from_trackable(trackable.clone(), "abc123");
    assert_eq!(in_index, TrackedOrdinaryAspects::new("abc123", attributes()));
    assert_eq!(in_index.hash, "abc123");
    let provider = RepoExportedHeapOrdinaryBlobProvider::new(Blob::from_vec(vec![1, 2, 3]));
    let repo_exported = RepoExportedOrdinaryAspects::from_tracked(in_index.clone(), provider.clone());
    assert_eq!(repo_exported.repo_blob_hash(), "abc123");
    assert_eq!(repo_exported.attributes, attributes());
    assert_eq!(repo_exported.blob_provider.clone_blob().unwrap().into_vec(), vec![1, 2, 3]);
    assert_eq!(
        repo_exported,
        RepoExportedOrdinaryAspects::from_tracked(
            TrackedOrdinaryAspects::new("abc123", attributes()),
            provider
        )
    );
    assert_eq!(repo_exported.clone(), repo_exported);
}

#[test]
fn nothing_is_recorded_of_a_path_at_which_nothing_is_to_exist() {
    let trackable = TrackableNonExistingAspects::new();
    assert_eq!(TrackableNonExistingAspects::from_tracked(trackable), trackable);
    let in_index = TrackedNonExistingAspects::from_trackable(trackable);
    assert_eq!(in_index, TrackedNonExistingAspects::new());
    assert_eq!(
        RepoExportedNonExistingAspects::from_tracked(in_index),
        RepoExportedNonExistingAspects::new()
    );
    assert_eq!(OptimisticDummyJournal::new(), OptimisticDummyJournal::new());
}

#[test]
fn entries_are_the_same_when_they_hold_the_same() {
    let directory = TrackedFileAspects::Directory(TrackedDirectoryAspects::new(attributes()));
    let symlink = TrackedFileAspects::Symlink(TrackedSymlinkAspects::new(String::from("/t")));
    let ordinary = TrackedFileAspects::Ordinary(TrackedOrdinaryAspects::new("h", attributes()));
    let other = TrackedFileAspects::Ordinary(TrackedOrdinaryAspects::new("g", attributes()));
    let nothing = TrackedFileAspects::NonExisting(TrackedNonExistingAspects::new());
    assert!(directory.same(&directory.clone()));
    assert!(symlink.same(&symlink.clone()));
    assert!(ordinary.same(&ordinary.clone()));
    assert!(nothing.same(&nothing.clone()));
    assert!(!ordinary.same(&other));
    assert!(!directory.same(&symlink));
    assert!(!nothing.same(&directory));
    assert!(attributes().same(&attributes()));
    assert!(!attributes().same(&Attributes {
        posix_user: String::from("nginx"),
        posix_group: String::from("nginx"),
    }));
}

#[test]
fn a_list_takes_the_files_in_the_order_in_which_they_are_added() {
    let mut list = RepoExportedVecFileList::new();
    list.add_non_existing(b"/gone".to_vec(), TrackedNonExistingAspects::new()).unwrap();
    list.add_directory(b"/etc".to_vec(), TrackedDirectoryAspects::new(attributes())).unwrap();
    list.add_ordinary(
        b"/a".to_vec(),
        TrackedOrdinaryAspects::new("h", attributes()),
        &TrackedOrdinaryBlobFile { blob: Blob::from_vec(vec![9]) },
    )
    .unwrap();
    list.add_symlink(b"/l".to_vec(), TrackedSymlinkAspects::new(String::from("/etc"))).unwrap();
    assert_eq!(list.len(), 4);
    assert_eq!(list.get(1).get_path(), b"/etc".to_vec());

    let files = list.consume_as_vec();
    assert_eq!(
        files[0],
        RepoExportedHeapFile::new(
            b"/gone".to_vec(),
            RepoExportedFileAspects::NonExisting(RepoExportedNonExistingAspects::new())
        )
    );
    assert_eq!(
        files[1].get_aspects(),
        &RepoExportedFileAspects::Directory(RepoExportedDirectoryAspects::new(attributes()))
    );
    assert_eq!(
        files[2].aspects,
        RepoExportedFileAspects::Ordinary(RepoExportedOrdinaryAspects::from_tracked(
            TrackedOrdinaryAspects::new("h", attributes()),
            RepoExportedHeapOrdinaryBlobProvider::new(Blob::from_vec(vec![9]))
        ))
    );
    assert_eq!(
        files[3].aspects.clone(),
        RepoExportedFileAspects::Symlink(RepoExportedSymlinkAspects::new(String::from("/etc")))
    );
}

#[test]
fn a_file_can_be_set_anew() {
    let mut file = RepoExportedHeapFile::new(
        b"/etc".to_vec(),
        RepoExportedFileAspects::Directory(RepoExportedDirectoryAspects::new(attributes())),
    );
    file.set_from_non_existing(b"/gone", RepoExportedNonExistingAspects::new());
    assert_eq!(file.get_path(), b"/gone".to_vec());
    assert!(matches!(file.get_aspects(), RepoExportedFileAspects::NonExisting(_)));
}
