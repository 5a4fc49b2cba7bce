use filecastalogue::error::ErrorKind;
use filecastalogue::files::blob::BlobProvider;
use filecastalogue::files::state::{StateFile, StateProvider};
use filecastalogue::files::RepoFile;
use filecastalogue::meta::blob::model::Blob;
use filecastalogue::meta::state::{State, StateAccessor};
use filecastalogue::meta::version::accessor::VersionAccessor;
use filecastalogue::meta::version::model::Version;

fn sample_state() -> State {
    let mut state = State::new();
    state.add_version("v1", Version::new_with_index("h1")).unwrap();
    state.add_version("second version", Version::new()).unwrap();
    state.add_version("v3", Version::new_with_index("")).unwrap();
    state
}

const SAMPLE_TEXT: &str = "version v1 h1\nversion second%20version\nversion v3 \n";

#[test]
fn a_version_refers_to_an_index_or_to_none() {
    let mut version = Version::new();
    assert!(!version.has_index());
    assert_eq!(version.get_index_id(), None);
    assert_eq!(version.set_index_id("abc"), "abc");
    assert!(version.has_index());
    assert_eq!(version.get_index_id(), Some(String::from("abc")));
    assert_eq!(version, Version::new_with_index("abc"));
    assert_eq!(version.clone(), version);
}

#[test]
fn a_fresh_ledger_holds_no_version() {
    let state = State::new();
    assert_eq!(state.len(), 0);
    assert!(!state.has_version("v1"));
    assert_eq!(state.get_version("v1").unwrap_err().kind, ErrorKind::VersionEntryDoesNotExist);
}

#[test]
fn adding_a_version_under_a_taken_id_fails_and_changes_nothing() {
    let mut state = State::new();
    assert!(!state.has_version("v1"));
    state.add_version("v1", Version::new_with_index("first")).unwrap();
    assert!(state.has_version("v1"));
    let before = state.clone();
    let error = state.add_version("v1", Version::new_with_index("second")).unwrap_err();
    assert_eq!(error.kind, ErrorKind::VersionEntryAlreadyExists);
    assert_eq!(error.payload, Some(String::from("An entry for version \"v1\" already exists.")));
    assert_eq!(state, before);
    assert_eq!(state.get_version("v1").unwrap(), Version::new_with_index("first"));
}

#[test]
fn putting_a_version_replaces_in_place_or_adds_at_the_end() {
    let mut state = sample_state();
    state.put_version("v1", Version::new_with_index("other"));
    assert_eq!(state.len(), 3);
    assert_eq!(state.id_at(0), "v1");
    assert_eq!(state.version_at(0), &Version::new_with_index("other"));
    state.put_version("v4", Version::new());
    assert_eq!(state.len(), 4);
    assert_eq!(state.id_at(3), "v4");
}

#[test]
fn deleting_a_version_keeps_the_order_of_the_others() {
    let mut state = sample_state();
    state.del_version("second version").unwrap();
    assert_eq!(state.len(), 2);
    assert_eq!(state.id_at(0), "v1");
    assert_eq!(state.id_at(1), "v3");
    let before = state.clone();
    let error = state.del_version("second version").unwrap_err();
    assert_eq!(error.kind, ErrorKind::VersionEntryDoesNotExist);
    assert_eq!(
        error.payload,
        Some(String::from("Error: There's no entry for version \"second version\"."))
    );
    assert_eq!(state, before);
}

#[test]
fn the_canonical_bytes_of_a_ledger_are_its_lines() {
    let blob = Blob::try_from_state(sample_state()).unwrap();
    assert_eq!(String::from_utf8(blob.into_vec()).unwrap(), SAMPLE_TEXT);
    assert_eq!(Blob::try_from_state(State::new()).unwrap().len(), 0);
}

#[test]
fn a_ledger_comes_back_from_its_canonical_bytes() {
    let state = State::try_from_blob(Blob::from_vec(SAMPLE_TEXT.as_bytes().to_vec())).unwrap();
    assert_eq!(state, sample_state());
    assert_eq!(state.get_version("v3").unwrap().get_index_id(), Some(String::new()));
    assert_eq!(state.get_version("second version").unwrap().get_index_id(), None);
    assert_eq!(State::try_from_blob(Blob::from_vec(Vec::new())).unwrap(), State::new());
}

fn refused(text: &[u8]) {
    let error = State::try_from_blob(Blob::from_vec(text.to_vec())).unwrap_err();
    assert_eq!(error.kind, ErrorKind::MalformedDocument);
}

#[test]
fn ledger_bytes_that_are_not_canonical_are_refused() {
    refused(b"version v1 h1\nversion v1 h2\n");
    refused(b"version v1 h1");
    refused(b"version\n");
    refused(b"versions v1\n");
    refused(b"version v1 h1 extra\n");
    refused(b"version %761\n");
    refused(b"version v1\n\n");
    refused(b"{\"versions\": []}");
}

#[test]
fn a_state_file_loads_and_saves_canonical_bytes() {
    let mut file = StateFile::new();
    assert_eq!(file.get_state_ref().unwrap().len(), 0);
    file.load(SAMPLE_TEXT.as_bytes()).unwrap();
    assert_eq!(file.state, sample_state());

    let error = file.load(b"nonsense").unwrap_err();
    assert_eq!(error.kind, ErrorKind::RepoFileOperationFailed);
    assert_eq!(error.payload, Some(String::from("Failed loading repo-file, file identifier: State.")));
    assert_eq!(error.source().unwrap().kind, ErrorKind::MalformedDocument);
    assert_eq!(file.state, sample_state());

    let mut written = Vec::new();
    file.save(&mut written).unwrap();
    assert_eq!(String::from_utf8(written).unwrap(), SAMPLE_TEXT);
    assert_eq!(file.clone_blob().unwrap().into_vec(), SAMPLE_TEXT.as_bytes().to_vec());

    assert_eq!(
        StateFile::from_existing(b"nonsense").unwrap_err().kind,
        ErrorKind::MalformedDocument
    );
}
