use filecastalogue::error::ErrorKind;
use filecastalogue::meta::blob::model::Blob;
use filecastalogue::meta::state::{State, StateAccessor};
use filecastalogue::meta::version::accessor::VersionAccessor;
use filecastalogue::meta::version::model::Version;

const NON_EXISTENT_VERSION_ID: &str = "0";
const MINIMAL_STATE_VERSION_ID: &str = "1";
const MINIMAL_STATE_TEXT: &str = "version 1 MOCKHASH\n";

fn create_minimal_state_struct() -> State {
    let mut state = State::new();
    state.put_version(MINIMAL_STATE_VERSION_ID, Version::new_with_index("MOCKHASH"));
    state
}

// A ledger that is read from its stored form refers to the same index as
// the ledger that was built in memory.
#[test]
fn hash_is_same_in_serialized_state() {
    let state = State::try_from_blob(Blob::from_vec(MINIMAL_STATE_TEXT.as_bytes().to_vec()))
        .ok()
        .unwrap();
    assert_eq!(
        state.get_version("1").ok().unwrap().index,
        create_minimal_state_struct().get_version("1").ok().unwrap().index
    );
}

#[test]
fn has_version_returns_true_when_state_has_version() {
    let state = create_minimal_state_struct();
    assert_eq!(state.has_version(MINIMAL_STATE_VERSION_ID), true);
}

#[test]
fn has_version_returns_false_when_state_does_not_have_version() {
    let state = create_minimal_state_struct();
    assert_eq!(state.has_version(NON_EXISTENT_VERSION_ID), false);
}

#[test]
fn get_version_returns_version() {
    let state = create_minimal_state_struct();
    let result: Version = state.get_version("1").ok().unwrap();
    assert_eq!(result, Version::new_with_index("MOCKHASH"));
    assert_eq!(&result, state.version_at(0));
}

#[test]
fn get_version_returns_error_when_state_does_not_have_version() {
    let state = create_minimal_state_struct();
    let result = state.get_version(NON_EXISTENT_VERSION_ID);
    let is_err = result.is_err();
    assert!(
        is_err,
        "{}. Result: {:?}",
        ".get_version() did not return an error when it should have",
        result
    );
    assert_eq!(result.unwrap_err().kind, ErrorKind::VersionEntryDoesNotExist);
}

#[test]
fn put_version() {
    let new_id = "2";
    let new_hash = "NEWHASH";
    let mut state = create_minimal_state_struct();
    assert_ne!(
        state.has_version(new_id),
        true,
        "Preparation failed: State shouldn't have the version ({}) we're about to insert yet.",
        new_id
    );
    state.put_version(new_id, Version::new_with_index(new_hash));
    assert_eq!(state.has_version(new_id), true);
    assert_eq!(state.get_version(new_id).ok().unwrap().get_index_id(), Some(String::from("NEWHASH")));
}

#[test]
fn meta_add_version() {
    let new_id = "2";
    let new_hash = "NEWHASH";
    let mut state = create_minimal_state_struct();
    assert_ne!(
        state.has_version(new_id),
        true,
        "Preparation failed: State shouldn't have the version ({}) we're about to insert yet.",
        new_id
    );
    let result = state.add_version(new_id, Version::new_with_index(new_hash));
    assert_ne!(
        result.is_err(),
        true,
        "Preparation failed: .has_version() shouldn't return an error here. Version ID: {}",
        new_id
    );
    assert_eq!(state.has_version(new_id), true);
}

#[test]
fn del_version() {
    let mut state = create_minimal_state_struct();
    assert_eq!(
        state.has_version(MINIMAL_STATE_VERSION_ID),
        true,
        "Preparation failed: .has_version() should return true here for ID: {}",
        MINIMAL_STATE_VERSION_ID
    );
    let result = state.del_version(MINIMAL_STATE_VERSION_ID);
    assert_ne!(
        result.is_err(),
        true,
        "Preparation failed: .del_version() shouldn't return an error here. Version ID: {}",
        MINIMAL_STATE_VERSION_ID
    );
    assert_ne!(state.has_version(MINIMAL_STATE_VERSION_ID), true);
}
