//! The index: the snapshot of one version.

pub mod error;
pub mod model;
pub mod principal_conversions;

use crate::assoc::{
    as_map,
    distinct_keys,
    has_key,
    key_at,
    lemma_insert_at,
    lemma_position_unique,
    lemma_put,
    lemma_without,
    position_of,
    put,
    value_of,
    without,
};
use crate::error::{Error, ErrorKind, FcResult};
use crate::meta::file_aspects::enums::{TrackedFileAspects, TrackedView};
use crate::meta::index::error::{
    already_tracked_text,
    untracked_text,
    FileAlreadyTrackedErrorPayload,
    UntrackedFileErrorPayload,
};
use crate::order::{
    compare_bytes,
    lemma_lex_asymmetric,
    lemma_lex_connected,
    lemma_lex_irreflexive,
    lemma_lex_transitive,
    lex_lt,
    Position,
};
use vstd::prelude::*;
use vstd::slice::slice_to_vec;

verus! {

/// The entries of an index, as contracts speak of them: each path with what
/// is recorded of it.
pub type Entries = Seq<(Seq<u8>, TrackedView)>;

/// Whether `entries` is the content of an index: the paths stand in
/// ascending order, so that none occurs twice.
pub open spec fn index_wf(entries: Entries) -> bool {
    forall|i: int, j: int| 0 <= i < j < entries.len() ==> lex_lt(entries[i].0, entries[j].0)
}

/// An index maps paths to what is recorded of them. A path is a string of
/// bytes; it need not be a text.
///
/// The entries are kept in the order of their paths. Two indexes that map
/// the same paths to the same aspects therefore hold the same entries in the
/// same order, whatever the order was in which the paths were tracked, and
/// have the same canonical bytes and the same hash.
#[derive(Debug, PartialEq, Eq)]
pub struct Index {
    files: Vec<(Vec<u8>, TrackedFileAspects)>,
}

/// The entries that `files` holds, as contracts speak of them.
spec fn entries_of(files: Seq<(Vec<u8>, TrackedFileAspects)>) -> Entries {
    files.map_values(|e: (Vec<u8>, TrackedFileAspects)| (e.0@, e.1@))
}

impl View for Index {
    type V = Entries;

    closed spec fn view(&self) -> Entries {
        entries_of(self.files@)
    }
}

/// In a well-formed index no path occurs twice.
pub proof fn lemma_wf_distinct(entries: Entries)
    requires
        index_wf(entries),
    ensures
        distinct_keys(entries),
{
    assert forall|i: int, j: int| 0 <= i < j < entries.len() implies entries[i].0
        != entries[j].0 by {
        lemma_lex_asymmetric(entries[i].0, entries[j].0);
    }
}

/// Two well-formed indexes that map the same paths to the same aspects hold
/// the same entries in the same order.
pub proof fn lemma_same_map_same_entries(a: Entries, b: Entries)
    requires
        index_wf(a),
        index_wf(b),
        as_map(a) == as_map(b),
    ensures
        a == b,
    decreases a.len(),
{
    lemma_wf_distinct(a);
    lemma_wf_distinct(b);
    if a.len() == 0 {
        if b.len() > 0 {
            assert(key_at(b, b[0].0, 0));
            assert(as_map(b).dom().contains(b[0].0));
            assert(has_key(a, b[0].0));
            assert(key_at(a, b[0].0, position_of(a, b[0].0)));
        }
        assert(a =~= b);
    } else {
        let k = a[0].0;
        assert(key_at(a, k, 0));
        assert(as_map(a).dom().contains(k));
        assert(has_key(b, k));
        let j = position_of(b, k);
        assert(key_at(b, k, j));
        if j > 0 {
            let q = b[0].0;
            assert(key_at(b, q, 0));
            assert(as_map(b).dom().contains(q));
            assert(has_key(a, q));
            let i = position_of(a, q);
            assert(key_at(a, q, i));
            assert(lex_lt(q, k));
            if i > 0 {
                assert(lex_lt(k, q));
                lemma_lex_asymmetric(q, k);
            } else {
                lemma_lex_irreflexive(k);
            }
        }
        lemma_position_unique(a, k, 0);
        lemma_position_unique(b, k, 0);
        assert(as_map(b).dom().contains(k));
        assert(as_map(a)[k] == value_of(a, k));
        assert(as_map(b)[k] == value_of(b, k));
        assert(a[0].1 == b[0].1);
        lemma_without(a, k);
        lemma_without(b, k);
        assert(a.skip(1) =~= without(a, k));
        assert(b.skip(1) =~= without(b, k));
        lemma_same_map_same_entries(a.skip(1), b.skip(1));
        assert(a =~= seq![a[0]] + a.skip(1));
        assert(b =~= seq![b[0]] + b.skip(1));
    }
}

/// The place of a path that is not tracked: behind the paths that stand
/// before it, in front of the others.
proof fn lemma_slot(entries: Entries, path: Seq<u8>, from: int) -> (at: int)
    requires
        index_wf(entries),
        !has_key(entries, path),
        0 <= from <= entries.len(),
        forall|j: int| 0 <= j < from ==> lex_lt(entries[j].0, path),
    ensures
        from <= at <= entries.len(),
        forall|j: int| 0 <= j < at ==> lex_lt(entries[j].0, path),
        forall|j: int| at <= j < entries.len() ==> lex_lt(path, entries[j].0),
    decreases entries.len() - from,
{
    if from == entries.len() {
        from
    } else if lex_lt(entries[from].0, path) {
        lemma_slot(entries, path, from + 1)
    } else {
        assert(key_at(entries, entries[from].0, from));
        lemma_lex_connected(entries[from].0, path);
        lemma_between(entries, path, from);
        from
    }
}

/// A path that is not tracked can be tracked: there is a well-formed index
/// that tracks it besides what was tracked.
pub proof fn lemma_tracking_exists(entries: Entries, path: Seq<u8>, aspects: TrackedView) -> (after:
    Entries)
    requires
        index_wf(entries),
        !has_key(entries, path),
    ensures
        index_wf(after),
        as_map(after) == as_map(entries).insert(path, aspects),
{
    let at = lemma_slot(entries, path, 0);
    let after = entries.insert(at, (path, aspects));
    lemma_wf_distinct(entries);
    lemma_insert_at(entries, at, path, aspects);
    assert forall|i: int, j: int| 0 <= i < j < after.len() implies lex_lt(
        after[i].0,
        after[j].0,
    ) by {
        let bi = if i < at { i } else { i - 1 };
        let bj = if j < at { j } else { j - 1 };
        if i != at && j != at {
            assert(lex_lt(entries[bi].0, entries[bj].0));
        }
    }
    after
}

/// Reading and changing an index.
pub trait Accessor {
    /// The entries in the order of their paths.
    spec fn entries(&self) -> Entries;

    /// Whether the index tracks no path.
    fn is_empty(&self) -> (r: bool)
        ensures
            r == (self.entries().len() == 0),
    ;

    /// Whether the index tracks any path.
    fn tracks_files(&self) -> (r: bool)
        ensures
            r == (self.entries().len() > 0),
    ;

    /// Whether the index tracks `path`.
    fn tracks_file(&self, path: &[u8]) -> (r: bool)
        ensures
            r == has_key(self.entries(), path@),
    ;

    /// Tracks `path` with `aspects`. It fails, with the kind
    /// `FileAlreadyTracked`, where the path is tracked already; the index is
    /// then as it was.
    fn track_file(&mut self, path: &[u8], aspects: &TrackedFileAspects) -> (r: FcResult<()>)
        ensures
            match r {
                Ok(_) => {
                    &&& !has_key(old(self).entries(), path@)
                    &&& as_map(final(self).entries()) == as_map(old(self).entries()).insert(
                        path@,
                        aspects@,
                    )
                },
                Err(e) => {
                    &&& has_key(old(self).entries(), path@)
                    &&& final(self).entries() == old(self).entries()
                    &&& e.kind == ErrorKind::FileAlreadyTracked
                    &&& e.context@ == "Adding new file to track."@
                    &&& e.payload matches Some(text) && text@ == already_tracked_text(path@)
                    &&& e.wrapped is None
                },
            },
    ;

    /// Stops tracking `path`. It fails, with the kind `UntrackedFile`, where
    /// the path is not tracked; the index is then as it was.
    fn untrack_file(&mut self, path: &[u8]) -> (r: FcResult<()>)
        ensures
            match r {
                Ok(_) => {
                    &&& has_key(old(self).entries(), path@)
                    &&& final(self).entries() == without(old(self).entries(), path@)
                    &&& as_map(final(self).entries()) == as_map(old(self).entries()).remove(path@)
                },
                Err(e) => {
                    &&& !has_key(old(self).entries(), path@)
                    &&& final(self).entries() == old(self).entries()
                    &&& e.kind == ErrorKind::UntrackedFile
                    &&& e.context@ == "Untracking a file."@
                    &&& e.payload matches Some(text) && text@ == untracked_text(path@)
                    &&& e.wrapped is None
                },
            },
    ;

    /// What the index holds of `path`. It fails, with the kind
    /// `UntrackedFile`, where the path is not tracked.
    fn get_aspects(&self, path: &[u8]) -> (r: FcResult<TrackedFileAspects>)
        ensures
            match r {
                Ok(aspects) => has_key(self.entries(), path@) && aspects@ == value_of(
                    self.entries(),
                    path@,
                ),
                Err(e) => {
                    &&& !has_key(self.entries(), path@)
                    &&& e.kind == ErrorKind::UntrackedFile
                    &&& e.context@ == "Getting file aspects by path."@
                    &&& e.payload matches Some(text) && text@ == untracked_text(path@)
                    &&& e.wrapped is None
                },
            },
    ;
}

/// Where `path` stands or would stand among `files`: the number of paths
/// that stand before it, and whether the path at that position is `path`.
fn search(files: &Vec<(Vec<u8>, TrackedFileAspects)>, path: &[u8]) -> (r: (usize, bool))
    requires
        index_wf(entries_of(files@)),
    ensures
        r.0 <= files@.len(),
        forall|j: int| 0 <= j < r.0 ==> lex_lt(entries_of(files@)[j].0, path@),
        r.1 ==> key_at(entries_of(files@), path@, r.0 as int) && position_of(
            entries_of(files@),
            path@,
        ) == r.0,
        !r.1 ==> !has_key(entries_of(files@), path@),
        !r.1 ==> forall|j: int| r.0 <= j < files@.len() ==> lex_lt(path@, entries_of(files@)[j].0),
{
    let ghost entries = entries_of(files@);
    let mut i: usize = 0;
    while i < files.len()
        invariant
            i <= files.len(),
            entries == entries_of(files@),
            index_wf(entries),
            forall|j: int| 0 <= j < i ==> lex_lt(entries[j].0, path@),
        decreases files.len() - i,
    {
        match compare_bytes(files[i].0.as_slice(), path) {
            Position::Before => {},
            Position::Same => {
                proof {
                    lemma_wf_distinct(entries);
                    lemma_position_unique(entries, path@, i as int);
                }
                return (i, true);
            },
            Position::After => {
                proof {
                    lemma_lex_connected(entries[i as int].0, path@);
                    lemma_between(entries, path@, i as int);
                }
                return (i, false);
            },
        }
        i += 1;
    }
    proof {
        lemma_between(entries, path@, i as int);
    }
    (i, false)
}

/// A path that stands behind the first `at` paths and before the others is
/// not among them.
proof fn lemma_between(entries: Entries, path: Seq<u8>, at: int)
    requires
        index_wf(entries),
        0 <= at <= entries.len(),
        forall|j: int| 0 <= j < at ==> lex_lt(entries[j].0, path),
        at < entries.len() ==> lex_lt(path, entries[at].0),
    ensures
        !has_key(entries, path),
        forall|j: int| at <= j < entries.len() ==> lex_lt(path, entries[j].0),
{
    assert forall|j: int| at <= j < entries.len() implies lex_lt(path, entries[j].0) by {
        if j > at {
            lemma_lex_transitive(path, entries[at].0, entries[j].0);
        }
    }
    if has_key(entries, path) {
        let p = position_of(entries, path);
        assert(key_at(entries, path, p));
        lemma_lex_irreflexive(path);
    }
}

impl Index {
    /// The paths stand in ascending order.
    #[verifier::type_invariant]
    closed spec fn inv(&self) -> bool {
        index_wf(entries_of(self.files@))
    }

    /// The index is well formed. Every index is.
    pub open spec fn wf(&self) -> bool {
        index_wf(self@)
    }

    /// The index that tracks no path.
    pub fn new() -> (r: Self)
        ensures
            r.wf(),
            r@ == Entries::empty(),
    {
        let files: Vec<(Vec<u8>, TrackedFileAspects)> = Vec::new();
        proof {
            assert(entries_of(files@) =~= Entries::empty());
        }
        Index { files }
    }

    /// The number of paths that the index tracks.
    pub fn len(&self) -> (r: usize)
        ensures
            r == self@.len(),
    {
        self.files.len()
    }

    /// The path of the entry at position `i`.
    pub fn path_at(&self, i: usize) -> (r: &[u8])
        requires
            i < self@.len(),
        ensures
            r@ == self@[i as int].0,
    {
        self.files[i].0.as_slice()
    }

    /// What the entry at position `i` holds.
    pub fn aspects_at(&self, i: usize) -> (r: &TrackedFileAspects)
        requires
            i < self@.len(),
        ensures
            r@ == self@[i as int].1,
    {
        &self.files[i].1
    }

    /// Puts `aspects` under `path`, in place of what the index held of that
    /// path before, if it held anything.
    pub fn put_file(&mut self, path: &[u8], aspects: &TrackedFileAspects)
        ensures
            final(self).wf(),
            as_map(final(self)@) == as_map(old(self)@).insert(path@, aspects@),
    {
        proof {
            use_type_invariant(&*self);
        }
        let ghost before = self@;
        proof {
            lemma_wf_distinct(before);
        }
        let mut files: Vec<(Vec<u8>, TrackedFileAspects)> = Vec::new();
        proof {
            assert(entries_of(files@) =~= Entries::empty());
        }
        std::mem::swap(&mut files, &mut self.files);
        let (at, found) = search(&files, path);
        if found {
            files.set(at, (slice_to_vec(path), aspects.clone()));
            proof {
                let after = entries_of(files@);
                lemma_put(before, path@, aspects@);
                assert(after =~= put(before, path@, aspects@));
                assert forall|i: int, j: int| 0 <= i < j < after.len() implies lex_lt(
                    after[i].0,
                    after[j].0,
                ) by {
                    assert(lex_lt(before[i].0, before[j].0));
                }
            }
        } else {
            files.insert(at, (slice_to_vec(path), aspects.clone()));
            proof {
                let after = entries_of(files@);
                lemma_insert_at(before, at as int, path@, aspects@);
                assert(after =~= before.insert(at as int, (path@, aspects@)));
                assert forall|i: int, j: int| 0 <= i < j < after.len() implies lex_lt(
                    after[i].0,
                    after[j].0,
                ) by {
                    let bi = if i < at { i } else { i - 1 };
                    let bj = if j < at { j } else { j - 1 };
                    if i != at && j != at {
                        assert(lex_lt(before[bi].0, before[bj].0));
                    }
                }
            }
        }
        self.files = files;
    }
}

impl Accessor for Index {
    open spec fn entries(&self) -> Entries {
        self@
    }

    fn is_empty(&self) -> (r: bool) {
        self.files.len() == 0
    }

    fn tracks_files(&self) -> (r: bool) {
        self.files.len() > 0
    }

    fn tracks_file(&self, path: &[u8]) -> (r: bool) {
        proof {
            use_type_invariant(self);
        }
        let (_, found) = search(&self.files, path);
        found
    }

    fn track_file(&mut self, path: &[u8], aspects: &TrackedFileAspects) -> (r: FcResult<()>)
        ensures
            final(self).wf(),
    {
        proof {
            use_type_invariant(&*self);
        }
        let (_, found) = search(&self.files, path);
        if found {
            Err(
                Error::with_payload(
                    ErrorKind::FileAlreadyTracked,
                    "Adding new file to track.",
                    &FileAlreadyTrackedErrorPayload {
                        path: slice_to_vec(path),
                        index_struct: self.clone(),
                    },
                ),
            )
        } else {
            self.put_file(path, aspects);
            Ok(())
        }
    }

    fn untrack_file(&mut self, path: &[u8]) -> (r: FcResult<()>)
        ensures
            final(self).wf(),
    {
        proof {
            use_type_invariant(&*self);
        }
        let ghost before = self@;
        let (at, found) = search(&self.files, path);
        if found {
            proof {
                lemma_wf_distinct(before);
                lemma_without(before, path@);
            }
            let mut files: Vec<(Vec<u8>, TrackedFileAspects)> = Vec::new();
            proof {
                assert(entries_of(files@) =~= Entries::empty());
            }
            std::mem::swap(&mut files, &mut self.files);
            let _ = files.remove(at);
            proof {
                let after = entries_of(files@);
                assert(after =~= without(before, path@));
                assert forall|i: int, j: int| 0 <= i < j < after.len() implies lex_lt(
                    after[i].0,
                    after[j].0,
                ) by {
                    let bi = if i < at { i } else { i + 1 };
                    let bj = if j < at { j } else { j + 1 };
                    assert(lex_lt(before[bi].0, before[bj].0));
                }
            }
            self.files = files;
            Ok(())
        } else {
            Err(
                Error::with_payload(
                    ErrorKind::UntrackedFile,
                    "Untracking a file.",
                    &UntrackedFileErrorPayload { path: slice_to_vec(path) },
                ),
            )
        }
    }

    fn get_aspects(&self, path: &[u8]) -> (r: FcResult<TrackedFileAspects>) {
        proof {
            use_type_invariant(self);
        }
        let (at, found) = search(&self.files, path);
        if found {
            Ok(self.files[at].1.clone())
        } else {
            Err(
                Error::with_payload(
                    ErrorKind::UntrackedFile,
                    "Getting file aspects by path.",
                    &UntrackedFileErrorPayload { path: slice_to_vec(path) },
                ),
            )
        }
    }
}

impl Clone for Index {
    fn clone(&self) -> (r: Self)
        ensures
            r@ == self@,
            r.wf(),
    {
        let mut files: Vec<(Vec<u8>, TrackedFileAspects)> = Vec::new();
        let mut i: usize = 0;
        while i < self.files.len()
            invariant
                i <= self.files.len(),
                files@.len() == i,
                forall|j: int|
                    0 <= j < i ==> files@[j].0@ == self.files@[j].0@ && files@[j].1@
                        == self.files@[j].1@,
            decreases self.files.len() - i,
        {
            files.push((self.files[i].0.clone(), self.files[i].1.clone()));
            i += 1;
        }
        proof {
            use_type_invariant(self);
            assert(entries_of(files@) =~= self@);
        }
        Index { files }
    }
}

} // verus!
