use filecastalogue::error::{Error, ErrorKind, FcResult};
use filecastalogue::files::content_addressed::put_bytes;
use filecastalogue::files::hashable::hash_bytes;
use filecastalogue::files::index_collection::{IndexFileCollection, MiscIndexFileCollection};
use filecastalogue::files::state_collection::{MiscStateFileCollection, StateFileCollection};
use filecastalogue::files::tracked_ordinary_blob_collection::MiscTrackedOrdinaryBlobFileCollection;
use filecastalogue::journal::OptimisticDummyJournal;
use filecastalogue::meta::file_aspects::aspects::non_existing::TrackableNonExistingAspects;
use filecastalogue::opaque_collection_handler::drivers::memory::MemoryDir;
use filecastalogue::opaque_collection_handler::OpaqueCollectionHandler;
use filecastalogue::repo::Repo;

// A backend that fails when it is told to.
struct FlakyDir {
    inner: MemoryDir,
    fail_reads: bool,
    fail_writes: bool,
}

impl FlakyDir {
    fn new(label: &str) -> Self {
        FlakyDir { inner: MemoryDir::new(label), fail_reads: false, fail_writes: false }
    }
}

fn out_of_order() -> Error {
    Error::from_io(String::from("out of order"))
}

impl OpaqueCollectionHandler for FlakyDir {
    fn has_file(&self, name: &str) -> FcResult<bool> {
        if self.fail_reads {
            return Err(out_of_order());
        }
        self.inner.has_file(name)
    }

    fn create_file(&mut self, name: &str) -> FcResult<()> {
        if self.fail_writes {
            return Err(out_of_order());
        }
        self.inner.create_file(name)
    }

    fn read_file(&self, name: &str) -> FcResult<Vec<u8>> {
        if self.fail_reads {
            return Err(out_of_order());
        }
        self.inner.read_file(name)
    }

    fn write_file(&mut self, name: &str, bytes: &[u8]) -> FcResult<()> {
        if self.fail_writes {
            return Err(out_of_order());
        }
        self.inner.write_file(name, bytes)
    }

    fn collection_exists(&self) -> bool {
        self.inner.collection_exists()
    }

    fn create_collection(&mut self) -> FcResult<()> {
        self.inner.create_collection()
    }

    fn create_collection_ignore_exists(&mut self) -> FcResult<()> {
        self.inner.create_collection_ignore_exists()
    }

    fn get_debug_info_for_file(&self, name: &str) -> String {
        self.inner.get_debug_info_for_file(name)
    }
}

// A backend on which a file can be created and not written.
struct ReadOnlyContent {
    inner: MemoryDir,
}

impl OpaqueCollectionHandler for ReadOnlyContent {
    fn has_file(&self, name: &str) -> FcResult<bool> {
        self.inner.has_file(name)
    }

    fn create_file(&mut self, name: &str) -> FcResult<()> {
        self.inner.create_file(name)
    }

    fn read_file(&self, name: &str) -> FcResult<Vec<u8>> {
        self.inner.read_file(name)
    }

    fn write_file(&mut self, _name: &str, _bytes: &[u8]) -> FcResult<()> {
        Err(out_of_order())
    }

    fn collection_exists(&self) -> bool {
        self.inner.collection_exists()
    }

    fn create_collection(&mut self) -> FcResult<()> {
        self.inner.create_collection()
    }

    fn create_collection_ignore_exists(&mut self) -> FcResult<()> {
        self.inner.create_collection_ignore_exists()
    }

    fn get_debug_info_for_file(&self, name: &str) -> String {
        self.inner.get_debug_info_for_file(name)
    }
}

type FlakyRepo = Repo<
    MiscStateFileCollection<FlakyDir>,
    MiscIndexFileCollection<FlakyDir>,
    MiscTrackedOrdinaryBlobFileCollection<FlakyDir>,
    OptimisticDummyJournal,
>;

fn flaky_repo() -> FlakyRepo {
    let mut repo = Repo::new(
        MiscStateFileCollection::new(FlakyDir::new("repo"), String::from("state")),
        MiscIndexFileCollection::new(FlakyDir::new("repo/indexes")),
        MiscTrackedOrdinaryBlobFileCollection::new(FlakyDir::new("repo/blobs")),
        OptimisticDummyJournal::new(),
    );
    let empty = repo.state_collection.create_unwritten_empty_state_file_box();
    repo.state_collection.put_state_file(empty).unwrap();
    repo
}

#[test]
fn a_write_that_fails_is_told_as_a_failure_to_put() {
    let mut dir = ReadOnlyContent { inner: MemoryDir::new("blobs") };
    let error = put_bytes(&mut dir, b"foo").unwrap_err();
    assert_eq!(error.kind, ErrorKind::PuttingFileIntoCollectionFailed);
    assert_eq!(
        error.payload,
        Some(format!("memory: blobs/{}", hash_bytes(b"foo")))
    );
    let cause = error.source().unwrap();
    assert_eq!(cause.kind, ErrorKind::Io);
    assert_eq!(cause.context, "<converted from std::io::Error>");
}

#[test]
fn a_backend_that_fails_changes_nothing_that_was_stored() {
    let mut dir = FlakyDir::new("blobs");
    let first = put_bytes(&mut dir, b"first").unwrap();
    dir.fail_writes = true;
    assert_eq!(put_bytes(&mut dir, b"second").unwrap_err().kind, ErrorKind::Io);
    // What is there is found without a write.
    assert_eq!(put_bytes(&mut dir, b"first").unwrap(), first);
    dir.fail_writes = false;
    assert_eq!(dir.read_file(&first).unwrap(), b"first".to_vec());
    assert_eq!(dir.has_file(&hash_bytes(b"second")).unwrap(), false);
}

#[test]
fn the_ledger_stays_when_the_index_cannot_be_stored() {
    let mut repo = flaky_repo();
    repo.add_version("v").unwrap();
    let ledger = repo.state_collection.handler.read_file("state").unwrap();

    repo.indexes.handler.fail_writes = true;
    let error =
        repo.track_non_existing("v", b"/a", TrackableNonExistingAspects::new()).unwrap_err();
    assert_eq!(error.kind, ErrorKind::Io);
    assert_eq!(repo.state_collection.handler.read_file("state").unwrap(), ledger);

    repo.indexes.handler.fail_writes = false;
    repo.indexes.handler.fail_reads = true;
    let error =
        repo.track_non_existing("v", b"/a", TrackableNonExistingAspects::new()).unwrap_err();
    assert_eq!(error.kind, ErrorKind::Io);
    assert_eq!(repo.state_collection.handler.read_file("state").unwrap(), ledger);

    repo.indexes.handler.fail_reads = false;
    repo.track_non_existing("v", b"/a", TrackableNonExistingAspects::new()).unwrap();
    assert_ne!(repo.state_collection.handler.read_file("state").unwrap(), ledger);
}

#[test]
fn an_index_that_was_stored_is_an_orphan_when_the_ledger_cannot_be_written() {
    let mut repo = flaky_repo();
    repo.add_version("v").unwrap();
    let ledger = repo.state_collection.handler.read_file("state").unwrap();
    repo.state_collection.handler.fail_writes = true;
    let error =
        repo.track_non_existing("v", b"/a", TrackableNonExistingAspects::new()).unwrap_err();
    assert_eq!(error.kind, ErrorKind::Io);
    repo.state_collection.handler.fail_writes = false;
    assert_eq!(repo.state_collection.handler.read_file("state").unwrap(), ledger);
    assert_eq!(repo.indexes.has_index(&hash_bytes(b"non_existing /a\n")).unwrap(), true);
    assert_eq!(repo.has_version("v").unwrap(), true);
}
