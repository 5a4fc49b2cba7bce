//! What holds of the library as a whole.
//!
//! The theorems speak of the functions that the contracts of the operations
//! speak of, so that what they say of those functions holds of the
//! operations.

use crate::assoc::{
    as_map,
    distinct_keys,
    has_key,
    key_at,
    lemma_position_unique,
    lemma_put,
    lemma_without,
    position_of,
    put,
    value_of,
    without,
};
use crate::error::ErrorKind;
use crate::files::content_addressed::{
    content_addressed,
    no_other_under_hash,
    with_object,
    Objects,
};
use crate::files::hashable::content_hash;
use crate::meta::file_aspects::aspects::ordinary::{RepoExportedOrdinaryView, TrackedOrdinaryView};
use crate::meta::file_aspects::attributes::AttributesView;
use crate::meta::file_aspects::enums::{exported, RepoExportedView, TrackedView};
use crate::meta::index::principal_conversions::{
    decode_index,
    index_bytes,
    lemma_decode_index,
    lemma_index_bytes_injective,
};
use crate::meta::index::{
    index_wf,
    lemma_same_map_same_entries,
    lemma_tracking_exists,
    lemma_wf_distinct,
    Entries,
};
use crate::meta::state::ledger_wf;
use crate::meta::state::principal_conversions::{
    decode_ledger,
    lemma_decode_ledger,
    state_bytes,
    Ledger,
};
use crate::repo::{
    add_version_outcome,
    keeps_objects,
    content_missing,
    content_of,
    current_entries,
    empty_index_hash,
    export_entries,
    export_outcome,
    has_version_result,
    loaded_ledger,
    track_ordinary_outcome,
    track_outcome,
    tracking,
    version_index,
    RepoModel,
};
use vstd::prelude::*;

verus! {

/// Two indexes that map the same paths to the same aspects have the same
/// canonical bytes and the same hash, whatever the order was in which their
/// paths were tracked.
pub proof fn theorem_equal_indexes_have_one_hash(a: Entries, b: Entries)
    requires
        index_wf(a),
        index_wf(b),
        as_map(a) == as_map(b),
    ensures
        index_bytes(a) == index_bytes(b),
        content_hash(index_bytes(a)) == content_hash(index_bytes(b)),
{
    lemma_same_map_same_entries(a, b);
}

/// The canonical bytes of an index are those of no other index, and they
/// are read back as the index that they are the bytes of: every path comes
/// back byte for byte.
pub proof fn theorem_index_bytes_are_canonical(a: Entries, b: Entries)
    requires
        index_wf(a),
        index_wf(b),
    ensures
        (index_bytes(a) == index_bytes(b)) == (a == b),
        decode_index(index_bytes(a)) == Some(a),
{
    if index_bytes(a) == index_bytes(b) {
        lemma_index_bytes_injective(a, b);
    }
    lemma_decode_index(a);
}

/// Two ledgers with the same versions in the same order have the same
/// canonical bytes, and the bytes of a ledger are those of no other.
pub proof fn theorem_ledger_bytes_are_canonical(a: Ledger, b: Ledger)
    requires
        ledger_wf(a),
        ledger_wf(b),
    ensures
        (state_bytes(a) == state_bytes(b)) == (a == b),
        decode_ledger(state_bytes(a)) == Some(a),
{
    if state_bytes(a) == state_bytes(b) {
        crate::meta::state::principal_conversions::lemma_state_bytes_injective(a, b);
    }
    lemma_decode_ledger(a);
}

/// Putting an object into a collection a second time changes nothing: the
/// collection is what it was after the first time, and the hash is the
/// same.
pub proof fn theorem_put_is_idempotent(stored: Objects, bytes: Seq<u8>)
    ensures
        with_object(with_object(stored, bytes), bytes) == with_object(stored, bytes),
        with_object(stored, bytes).contains_key(content_hash(bytes)),
{
}

/// Putting an object into a collection changes no object that was there,
/// and where every object stood under the hash of its bytes, every object
/// still does.
pub proof fn theorem_put_keeps_what_is_stored(stored: Objects, bytes: Seq<u8>)
    ensures
        keeps_objects(stored, with_object(stored, bytes)),
        content_addressed(stored) ==> content_addressed(with_object(stored, bytes)),
{
}

/// A path that was tracked is tracked with the aspects it was tracked with,
/// and once it is untracked it is tracked no more: the index is what it was
/// before.
pub proof fn theorem_track_then_untrack(
    before: Entries,
    after: Entries,
    path: Seq<u8>,
    aspects: TrackedView,
)
    requires
        index_wf(before),
        index_wf(after),
        !has_key(before, path),
        as_map(after) == as_map(before).insert(path, aspects),
    ensures
        has_key(after, path),
        value_of(after, path) == aspects,
        !has_key(without(after, path), path),
        without(after, path) == before,
{
    lemma_wf_distinct(before);
    lemma_wf_distinct(after);
    assert(as_map(after).dom().contains(path));
    assert(as_map(after)[path] == aspects);
    lemma_without(after, path);
    let gone = without(after, path);
    let at = position_of(after, path);
    assert(key_at(after, path, at));
    assert forall|i: int, j: int| 0 <= i < j < gone.len() implies crate::order::lex_lt(
        gone[i].0,
        gone[j].0,
    ) by {
        let ai = if i < at { i } else { i + 1 };
        let aj = if j < at { j } else { j + 1 };
        assert(crate::order::lex_lt(after[ai].0, after[aj].0));
    }
    assert(as_map(gone) =~= as_map(before)) by {
        assert(!as_map(before).dom().contains(path));
        assert(as_map(before).insert(path, aspects).remove(path) =~= as_map(before));
    }
    lemma_same_map_same_entries(gone, before);
}

/// Once a version is added under an id, the ledger holds a version under
/// that id, and adding another under the same id fails because the version
/// exists. Before the version was added the ledger held none under the id.
pub proof fn theorem_version_is_added_once(model: RepoModel, id: Seq<char>)
    requires
        add_version_outcome(model, id).error is None,
    ensures
        has_version_result(model, id) == Ok::<bool, ErrorKind>(false),
        has_version_result(add_version_outcome(model, id).model, id) == Ok::<bool, ErrorKind>(
            true,
        ),
        add_version_outcome(add_version_outcome(model, id).model, id).error == Some(
            ErrorKind::VersionEntryAlreadyExists,
        ),
{
    let ledger = loaded_ledger(model)->Ok_0;
    let added = ledger.push((id, Some(empty_index_hash())));
    lemma_loaded_ledger_wf(model);
    lemma_put(ledger, id, Some(empty_index_hash()));
    assert(put(ledger, id, Some(empty_index_hash())) == added);
    lemma_decode_ledger(added);
}

/// A ledger that was loaded is well formed.
pub proof fn lemma_loaded_ledger_wf(model: RepoModel)
    requires
        loaded_ledger(model) is Ok,
    ensures
        ledger_wf(loaded_ledger(model)->Ok_0),
        model.state == Some(state_bytes(loaded_ledger(model)->Ok_0)),
{
}

/// An index that was loaded is well formed.
pub proof fn lemma_loaded_index_wf(model: RepoModel, version: Option<Seq<char>>)
    requires
        version_index(model, version) is Ok,
    ensures
        index_wf(version_index(model, version)->Ok_0),
{
}

/// Where handing out goes through, every entry of the index is handed out
/// in its exported form, in the order of the index.
pub proof fn lemma_export_complete(entries: Entries, blobs: Objects)
    requires
        export_entries(entries, blobs).error is None,
    ensures
        export_entries(entries, blobs).files.len() == entries.len(),
        forall|i: int|
            0 <= i < entries.len() ==> #[trigger] export_entries(entries, blobs).files[i] == (
                entries[i].0,
                exported(entries[i].1, content_of(entries[i].1, blobs)),
            ),
    decreases entries.len(),
{
    if entries.len() > 0 {
        let rest = entries.skip(1);
        lemma_export_complete(rest, blobs);
        let files = export_entries(entries, blobs).files;
        assert forall|i: int| 0 <= i < entries.len() implies #[trigger] files[i] == (
            entries[i].0,
            exported(entries[i].1, content_of(entries[i].1, blobs)),
        ) by {
            if i > 0 {
                assert(files[i] == export_entries(rest, blobs).files[i - 1]);
                assert(rest[i - 1] == entries[i]);
            }
        }
    }
}

/// Handing out entries whose contents are all stored gives the same files
/// from any collection that has kept those contents.
pub proof fn lemma_export_entries_stable(entries: Entries, before: Objects, after: Objects)
    requires
        export_entries(entries, before).error is None,
        keeps_objects(before, after),
    ensures
        export_entries(entries, after) == export_entries(entries, before),
    decreases entries.len(),
{
    if entries.len() > 0 {
        lemma_export_entries_stable(entries.skip(1), before, after);
        match entries[0].1 {
            TrackedView::Ordinary(ordinary) => {
                assert(before.contains_key(ordinary.hash));
            },
            _ => {},
        }
    }
}

/// The files of a version stay what they were as long as the ledger holds
/// the version with the same reference and the collections keep what they
/// hold.
pub proof fn lemma_export_stable(before: RepoModel, after: RepoModel, version_id: Seq<char>)
    requires
        export_outcome(before, version_id).error is None,
        loaded_ledger(after) is Ok,
        has_key(loaded_ledger(after)->Ok_0, version_id),
        value_of(loaded_ledger(after)->Ok_0, version_id) == value_of(
            loaded_ledger(before)->Ok_0,
            version_id,
        ),
        keeps_objects(before.indexes, after.indexes),
        keeps_objects(before.blobs, after.blobs),
    ensures
        export_outcome(after, version_id) == export_outcome(before, version_id),
{
    let ledger = loaded_ledger(before)->Ok_0;
    let version = value_of(ledger, version_id);
    match version {
        Some(hash) => {
            assert(before.indexes.contains_key(hash));
        },
        None => {},
    }
    let entries = version_index(before, version)->Ok_0;
    assert(version_index(after, version) == Ok::<Entries, ErrorKind>(entries));
    lemma_export_entries_stable(entries, before.blobs, after.blobs);
}

/// Tracking a path in one version leaves the files of every other version
/// as they were: the index that the other version refers to is not
/// touched, whether or not the two versions referred to the same index.
pub proof fn theorem_tracking_leaves_other_versions_alone(
    model: RepoModel,
    version_id: Seq<char>,
    path: Seq<u8>,
    aspects: TrackedView,
    other_id: Seq<char>,
)
    requires
        other_id != version_id,
        track_outcome(model, version_id, path, aspects).error is None,
        export_outcome(model, other_id).error is None,
    ensures
        export_outcome(track_outcome(model, version_id, path, aspects).model, other_id)
            == export_outcome(model, other_id),
{
    let outcome = track_outcome(model, version_id, path, aspects);
    let ledger = loaded_ledger(model)->Ok_0;
    lemma_loaded_ledger_wf(model);
    let entries = current_entries(model, version_id);
    let bytes = index_bytes(tracking(entries, path, aspects));
    let new_ledger = put(ledger, version_id, Some(content_hash(bytes)));
    lemma_put(ledger, version_id, Some(content_hash(bytes)));
    lemma_decode_ledger(new_ledger);
    lemma_same_values(ledger, new_ledger, other_id);
    lemma_export_stable(model, outcome.model, other_id);
}

/// Adding a version leaves the files of every other version as they were.
pub proof fn theorem_adding_leaves_other_versions_alone(
    model: RepoModel,
    id: Seq<char>,
    other_id: Seq<char>,
)
    requires
        add_version_outcome(model, id).error is None,
        export_outcome(model, other_id).error is None,
    ensures
        export_outcome(add_version_outcome(model, id).model, other_id) == export_outcome(
            model,
            other_id,
        ),
{
    let outcome = add_version_outcome(model, id);
    let ledger = loaded_ledger(model)->Ok_0;
    lemma_loaded_ledger_wf(model);
    let new_ledger = ledger.push((id, Some(empty_index_hash())));
    lemma_put(ledger, id, Some(empty_index_hash()));
    assert(put(ledger, id, Some(empty_index_hash())) == new_ledger);
    lemma_decode_ledger(new_ledger);
    lemma_same_values(ledger, new_ledger, other_id);
    lemma_export_stable(model, outcome.model, other_id);
}

/// Where two ledgers are the same but for one id, they hold the same under
/// every other id.
proof fn lemma_same_values(before: Ledger, after: Ledger, id: Seq<char>)
    requires
        ledger_wf(before),
        ledger_wf(after),
        has_key(before, id),
        exists|changed: Seq<char>, version: Option<Seq<char>>|
            changed != id && #[trigger] as_map(after) == as_map(before).insert(changed, version),
    ensures
        has_key(after, id),
        value_of(after, id) == value_of(before, id),
{
    assert(as_map(before).dom().contains(id));
    assert(as_map(after).dom().contains(id));
    assert(as_map(after)[id] == as_map(before)[id]);
}

/// Handing out goes through where the content of every ordinary file is
/// stored, and only there.
pub proof fn lemma_export_goes_through(entries: Entries, blobs: Objects)
    ensures
        export_entries(entries, blobs).error is None <==> forall|i: int|
            0 <= i < entries.len() ==> !content_missing(#[trigger] entries[i].1, blobs),
    decreases entries.len(),
{
    if entries.len() > 0 {
        let rest = entries.skip(1);
        lemma_export_goes_through(rest, blobs);
        if export_entries(entries, blobs).error is None {
            assert forall|i: int| 0 <= i < entries.len() implies !content_missing(
                #[trigger] entries[i].1,
                blobs,
            ) by {
                if i > 0 {
                    assert(rest[i - 1] == entries[i]);
                }
            }
        }
        if forall|i: int| 0 <= i < entries.len() ==> !content_missing(#[trigger] entries[i].1, blobs) {
            assert(!content_missing(entries[0].1, blobs));
            assert forall|i: int| 0 <= i < rest.len() implies !content_missing(
                #[trigger] rest[i].1,
                blobs,
            ) by {
                assert(rest[i] == entries[i + 1]);
            }
        }
    }
}

/// Where handing out an index goes through, it goes through as well once a
/// path is tracked besides, as long as the content that goes with the new
/// entry is stored.
pub proof fn lemma_export_after_tracking_goes_through(
    entries: Entries,
    after: Entries,
    path: Seq<u8>,
    aspects: TrackedView,
    blobs: Objects,
)
    requires
        index_wf(entries),
        index_wf(after),
        as_map(after) == as_map(entries).insert(path, aspects),
        export_entries(entries, blobs).error is None,
        !content_missing(aspects, blobs),
    ensures
        export_entries(after, blobs).error is None,
{
    lemma_export_goes_through(entries, blobs);
    lemma_export_goes_through(after, blobs);
    lemma_wf_distinct(entries);
    lemma_wf_distinct(after);
    assert forall|i: int| 0 <= i < after.len() implies !content_missing(
        #[trigger] after[i].1,
        blobs,
    ) by {
        let key = after[i].0;
        assert(key_at(after, key, i));
        lemma_position_unique(after, key, i);
        assert(as_map(after).dom().contains(key));
        assert(as_map(after)[key] == after[i].1);
        if key != path {
            assert(as_map(entries).dom().contains(key));
            let j = position_of(entries, key);
            assert(key_at(entries, key, j));
            lemma_position_unique(entries, key, j);
            assert(as_map(entries)[key] == entries[j].1);
            assert(!content_missing(entries[j].1, blobs));
        }
    }
}

/// After a path was tracked in a version whose files could be handed out,
/// they can be handed out still, and they hold one entry for the path: the
/// exported form of what was tracked.
///
/// This supposes that the new index took its place in the collection, that
/// is, that no other object stood under its hash, and that the content that
/// goes with the new entry is stored.
pub proof fn theorem_tracked_path_is_exported(
    model: RepoModel,
    version_id: Seq<char>,
    path: Seq<u8>,
    aspects: TrackedView,
)
    requires
        track_outcome(model, version_id, path, aspects).error is None,
        no_other_under_hash(
            model.indexes,
            index_bytes(tracking(current_entries(model, version_id), path, aspects)),
        ),
        export_outcome(model, version_id).error is None,
        !content_missing(aspects, model.blobs),
    ensures
        ({
            let after = track_outcome(model, version_id, path, aspects).model;
            let files = export_outcome(after, version_id).files;
            &&& export_outcome(after, version_id).error is None
            &&& distinct_keys(files)
            &&& has_key(files, path)
            &&& value_of(files, path) == exported(aspects, content_of(aspects, after.blobs))
        }),
{
    let outcome = track_outcome(model, version_id, path, aspects);
    let ledger = loaded_ledger(model)->Ok_0;
    lemma_loaded_ledger_wf(model);
    let entries = current_entries(model, version_id);
    lemma_loaded_index_wf(model, value_of(ledger, version_id));
    let built = lemma_tracking_exists(entries, path, aspects);
    let new_entries = tracking(entries, path, aspects);
    assert(index_wf(new_entries) && as_map(new_entries) == as_map(entries).insert(path, aspects));
    let bytes = index_bytes(new_entries);
    let hash = content_hash(bytes);
    let new_ledger = put(ledger, version_id, Some(hash));
    lemma_put(ledger, version_id, Some(hash));
    lemma_decode_ledger(new_ledger);
    assert(loaded_ledger(outcome.model) == Ok::<Ledger, ErrorKind>(new_ledger));
    lemma_decode_index(new_entries);
    assert(outcome.model.indexes[hash] == bytes);
    assert(version_index(outcome.model, Some(hash)) == Ok::<Entries, ErrorKind>(new_entries));
    let export = export_outcome(outcome.model, version_id);
    assert(export == export_entries(new_entries, outcome.model.blobs));
    lemma_export_after_tracking_goes_through(entries, new_entries, path, aspects, model.blobs);
    lemma_export_complete(new_entries, outcome.model.blobs);
    let files = export.files;
    lemma_wf_distinct(new_entries);
    assert forall|i: int, j: int| 0 <= i < j < files.len() implies files[i].0 != files[j].0 by {
        assert(new_entries[i].0 != new_entries[j].0);
    }
    assert(as_map(new_entries).dom().contains(path));
    let at = position_of(new_entries, path);
    assert(key_at(new_entries, path, at));
    assert(as_map(new_entries)[path] == aspects);
    assert(key_at(files, path, at));
    lemma_position_unique(files, path, at);
}

/// After an ordinary file was tracked with a content in a version whose
/// files could be handed out, they can be handed out still, and they hold
/// one entry for its path: an ordinary file with that very content, and
/// with the hash of the content as the hash that the repository knows it
/// by.
///
/// This supposes that the content and the new index took their places in
/// their collections, that is, that no other object stood under the hash of
/// either.
pub proof fn theorem_ordinary_file_is_exported_with_its_content(
    model: RepoModel,
    version_id: Seq<char>,
    path: Seq<u8>,
    attributes: AttributesView,
    blob: Seq<u8>,
)
    requires
        track_ordinary_outcome(model, version_id, path, attributes, blob).error is None,
        no_other_under_hash(model.blobs, blob),
        no_other_under_hash(
            model.indexes,
            index_bytes(
                tracking(
                    current_entries(model, version_id),
                    path,
                    TrackedView::Ordinary(
                        TrackedOrdinaryView { hash: content_hash(blob), attributes },
                    ),
                ),
            ),
        ),
        export_outcome(model, version_id).error is None,
    ensures
        ({
            let after = track_ordinary_outcome(model, version_id, path, attributes, blob).model;
            let files = export_outcome(after, version_id).files;
            &&& export_outcome(after, version_id).error is None
            &&& distinct_keys(files)
            &&& has_key(files, path)
            &&& value_of(files, path) == RepoExportedView::Ordinary(
                RepoExportedOrdinaryView { repo_blob_hash: content_hash(blob), attributes, blob },
            )
        }),
{
    let with_blob = RepoModel {
        state: model.state,
        indexes: model.indexes,
        blobs: with_object(model.blobs, blob),
    };
    let aspects = TrackedView::Ordinary(
        TrackedOrdinaryView { hash: content_hash(blob), attributes },
    );
    assert(current_entries(with_blob, version_id) == current_entries(model, version_id));
    assert(keeps_objects(model.blobs, with_blob.blobs));
    lemma_export_stable(model, with_blob, version_id);
    theorem_tracked_path_is_exported(with_blob, version_id, path, aspects);
}

/// After a path was tracked as one at which nothing is to exist, in a
/// version whose files could be handed out, they can be handed out still,
/// and they hold one entry for the path, which says that nothing is to
/// exist there: the path is no directory, no ordinary file and no symlink.
///
/// This supposes that the new index took its place in the collection, that
/// is, that no other object stood under its hash.
pub proof fn theorem_non_existing_is_exported_as_such(
    model: RepoModel,
    version_id: Seq<char>,
    path: Seq<u8>,
)
    requires
        track_outcome(model, version_id, path, TrackedView::NonExisting).error is None,
        no_other_under_hash(
            model.indexes,
            index_bytes(
                tracking(current_entries(model, version_id), path, TrackedView::NonExisting),
            ),
        ),
        export_outcome(model, version_id).error is None,
    ensures
        ({
            let after = track_outcome(model, version_id, path, TrackedView::NonExisting).model;
            let files = export_outcome(after, version_id).files;
            &&& export_outcome(after, version_id).error is None
            &&& distinct_keys(files)
            &&& has_key(files, path)
            &&& value_of(files, path) == RepoExportedView::NonExisting
            &&& forall|i: int|
                0 <= i < files.len() && files[i].0 == path ==> files[i].1
                    == RepoExportedView::NonExisting
        }),
{
    theorem_tracked_path_is_exported(model, version_id, path, TrackedView::NonExisting);
    let after = track_outcome(model, version_id, path, TrackedView::NonExisting).model;
    let files = export_outcome(after, version_id).files;
    assert forall|i: int| 0 <= i < files.len() && files[i].0 == path implies files[i].1
        == RepoExportedView::NonExisting by {
        lemma_position_unique(files, path, i);
    }
}

} // verus!
