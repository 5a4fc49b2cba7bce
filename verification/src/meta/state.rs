//! The ledger of versions.

pub mod error;
pub mod principal_conversions;

use crate::assoc::{
    distinct_keys,
    has_key,
    key_at,
    lemma_empty,
    lemma_position_unique,
    lemma_put,
    lemma_without,
    position_of,
    put,
    value_of,
    without,
};
use crate::error::{Error, ErrorKind, FcResult};
use crate::meta::state::error::{
    already_exists_text,
    does_not_exist_text,
    VersionEntryAlreadyExistsErrorPayload,
    VersionEntryDoesNotExistErrorPayload,
};
use crate::meta::version::model::Version;
use crate::text::{owned_text, same_text};
use vstd::prelude::*;

verus! {


/// The ledger: the versions of a repository, each under its id, in the
/// order in which they were added. No id occurs twice.
///
/// Everything that a repository holds is reached from here: from the ledger
/// to a version, from the version by its hash to an index, and from the
/// entries of the index by their hashes to the contents of ordinary files.
#[derive(Debug, PartialEq, Eq)]
pub struct State {
    versions: Vec<(String, Version)>,
}

/// The versions that `versions` holds, as contracts speak of them.
spec fn ledger_of(versions: Seq<(String, Version)>) -> Seq<(Seq<char>, Option<Seq<char>>)> {
    versions.map_values(|e: (String, Version)| (e.0@, e.1@))
}

impl View for State {
    type V = Seq<(Seq<char>, Option<Seq<char>>)>;

    closed spec fn view(&self) -> Seq<(Seq<char>, Option<Seq<char>>)> {
        ledger_of(self.versions@)
    }
}

/// Whether `ledger` is the content of a ledger: no id occurs twice.
pub open spec fn ledger_wf(ledger: Seq<(Seq<char>, Option<Seq<char>>)>) -> bool {
    distinct_keys(ledger)
}

impl State {
    /// No id occurs twice.
    #[verifier::type_invariant]
    closed spec fn inv(&self) -> bool {
        ledger_wf(ledger_of(self.versions@))
    }

    /// The ledger is well formed. Every ledger is.
    pub open spec fn wf(&self) -> bool {
        ledger_wf(self@)
    }

    /// The ledger without versions.
    pub fn new() -> (r: Self)
        ensures
            r.wf(),
            r@ == Seq::<(Seq<char>, Option<Seq<char>>)>::empty(),
    {
        let versions: Vec<(String, Version)> = Vec::new();
        proof {
            lemma_empty::<Seq<char>, Option<Seq<char>>>();
            assert(ledger_of(versions@) =~= Seq::<(Seq<char>, Option<Seq<char>>)>::empty());
        }
        State { versions }
    }

    /// The number of versions.
    pub fn len(&self) -> (r: usize)
        ensures
            r == self@.len(),
    {
        self.versions.len()
    }

    /// The id of the version at position `i`.
    pub fn id_at(&self, i: usize) -> (r: &str)
        requires
            i < self@.len(),
        ensures
            r@ == self@[i as int].0,
    {
        self.versions[i].0.as_str()
    }

    /// The version at position `i`.
    pub fn version_at(&self, i: usize) -> (r: &Version)
        requires
            i < self@.len(),
        ensures
            r@ == self@[i as int].1,
    {
        &self.versions[i].1
    }
}

impl Clone for State {
    fn clone(&self) -> (r: Self)
        ensures
            r@ == self@,
            r.wf(),
    {
        let mut versions: Vec<(String, Version)> = Vec::new();
        let mut i: usize = 0;
        while i < self.versions.len()
            invariant
                i <= self.versions.len(),
                versions@.len() == i,
                forall|j: int|
                    0 <= j < i ==> versions@[j].0@ == self.versions@[j].0@ && versions@[j].1@
                        == self.versions@[j].1@,
            decreases self.versions.len() - i,
        {
            versions.push((self.versions[i].0.clone(), self.versions[i].1.clone()));
            i += 1;
        }
        proof {
            use_type_invariant(self);
            assert(ledger_of(versions@) =~= self@);
        }
        State { versions }
    }
}



/// Reading and changing a ledger.
pub trait StateAccessor {
    /// The versions with their ids, in the order of the ledger.
    spec fn ledger(&self) -> Seq<(Seq<char>, Option<Seq<char>>)>;

    /// Whether the ledger holds a version under `id`.
    fn has_version(&self, id: &str) -> (r: bool)
        ensures
            r == has_key(self.ledger(), id@),
    ;

    /// The version that the ledger holds under `id`. It fails, with the kind
    /// `VersionEntryDoesNotExist`, where the ledger holds none.
    fn get_version(&self, id: &str) -> (r: FcResult<Version>)
        ensures
            match r {
                Ok(version) => has_key(self.ledger(), id@) && version@ == value_of(
                    self.ledger(),
                    id@,
                ),
                Err(e) => {
                    &&& !has_key(self.ledger(), id@)
                    &&& e.kind == ErrorKind::VersionEntryDoesNotExist
                    &&& e.context@ == "Getting entry for that version."@
                    &&& e.payload matches Some(text) && text@ == does_not_exist_text(id@)
                    &&& e.wrapped is None
                },
            },
    ;

    /// Puts `version` under `id`: in place of the version that stood there,
    /// or, where none did, at the end of the ledger.
    fn put_version(&mut self, id: &str, version: Version)
        ensures
            final(self).ledger() == put(old(self).ledger(), id@, version@),
    ;

    /// Adds `version` under `id` at the end of the ledger. It fails, with
    /// the kind `VersionEntryAlreadyExists`, where the id is taken; the
    /// ledger is then as it was.
    fn add_version(&mut self, id: &str, version: Version) -> (r: FcResult<()>)
        ensures
            match r {
                Ok(_) => !has_key(old(self).ledger(), id@) && final(self).ledger() == old(
                    self,
                ).ledger().push((id@, version@)),
                Err(e) => {
                    &&& has_key(old(self).ledger(), id@)
                    &&& final(self).ledger() == old(self).ledger()
                    &&& e.kind == ErrorKind::VersionEntryAlreadyExists
                    &&& e.context@ == "Adding a version entry."@
                    &&& e.payload matches Some(text) && text@ == already_exists_text(id@)
                    &&& e.wrapped is None
                },
            },
    ;

    /// Takes the version under `id` out of the ledger. It fails, with the
    /// kind `VersionEntryDoesNotExist`, where the ledger holds none; the
    /// ledger is then as it was.
    fn del_version(&mut self, id: &str) -> (r: FcResult<()>)
        ensures
            match r {
                Ok(_) => has_key(old(self).ledger(), id@) && final(self).ledger() == without(
                    old(self).ledger(),
                    id@,
                ),
                Err(e) => {
                    &&& !has_key(old(self).ledger(), id@)
                    &&& final(self).ledger() == old(self).ledger()
                    &&& e.kind == ErrorKind::VersionEntryDoesNotExist
                    &&& e.context@ == "Deleting a version entry."@
                    &&& e.payload matches Some(text) && text@ == does_not_exist_text(id@)
                    &&& e.wrapped is None
                },
            },
    ;
}

/// The position of the version under `id` among `versions`.
fn position(versions: &Vec<(String, Version)>, id: &str) -> (r: Option<usize>)
    requires
        ledger_wf(ledger_of(versions@)),
    ensures
        match r {
            Some(i) => key_at(ledger_of(versions@), id@, i as int) && position_of(
                ledger_of(versions@),
                id@,
            ) == i,
            None => !has_key(ledger_of(versions@), id@),
        },
{
    let ghost ledger = ledger_of(versions@);
    let mut i: usize = 0;
    while i < versions.len()
        invariant
            i <= versions.len(),
            ledger == ledger_of(versions@),
            ledger_wf(ledger),
            forall|j: int| 0 <= j < i ==> ledger[j].0 != id@,
        decreases versions.len() - i,
    {
        if same_text(versions[i].0.as_str(), id) {
            proof {
                lemma_position_unique(ledger, id@, i as int);
            }
            return Some(i);
        }
        i += 1;
    }
    proof {
        if has_key(ledger, id@) {
            assert(key_at(ledger, id@, position_of(ledger, id@)));
        }
    }
    None
}

impl StateAccessor for State {
    open spec fn ledger(&self) -> Seq<(Seq<char>, Option<Seq<char>>)> {
        self@
    }

    fn has_version(&self, id: &str) -> (r: bool) {
        proof {
            use_type_invariant(self);
        }
        position(&self.versions, id).is_some()
    }

    fn get_version(&self, id: &str) -> (r: FcResult<Version>) {
        proof {
            use_type_invariant(self);
        }
        match position(&self.versions, id) {
            Some(i) => {
                proof {
                    lemma_position_unique(self@, id@, i as int);
                }
                Ok(self.versions[i].1.clone())
            },
            None => Err(
                Error::with_payload(
                    ErrorKind::VersionEntryDoesNotExist,
                    "Getting entry for that version.",
                    &VersionEntryDoesNotExistErrorPayload { version_id: owned_text(id) },
                ),
            ),
        }
    }

    fn put_version(&mut self, id: &str, version: Version)
        ensures
            final(self).wf(),
    {
        proof {
            use_type_invariant(&*self);
        }
        let ghost before = self@;
        proof {
            lemma_put(before, id@, version@);
        }
        let mut versions: Vec<(String, Version)> = Vec::new();
        proof {
            lemma_empty::<Seq<char>, Option<Seq<char>>>();
            assert(ledger_of(versions@) =~= Seq::<(Seq<char>, Option<Seq<char>>)>::empty());
        }
        std::mem::swap(&mut versions, &mut self.versions);
        match position(&versions, id) {
            Some(i) => {
                versions.set(i, (owned_text(id), version));
            },
            None => {
                versions.push((owned_text(id), version));
            },
        }
        proof {
            assert(ledger_of(versions@) =~= put(before, id@, version@));
        }
        self.versions = versions;
    }

    fn add_version(&mut self, id: &str, version: Version) -> (r: FcResult<()>)
        ensures
            final(self).wf(),
    {
        proof {
            use_type_invariant(&*self);
        }
        let ghost before = self@;
        match position(&self.versions, id) {
            Some(i) => Err(
                Error::with_payload(
                    ErrorKind::VersionEntryAlreadyExists,
                    "Adding a version entry.",
                    &VersionEntryAlreadyExistsErrorPayload {
                        version_id: owned_text(id),
                        version_struct: self.versions[i].1.clone(),
                    },
                ),
            ),
            None => {
                self.put_version(id, version);
                Ok(())
            },
        }
    }

    fn del_version(&mut self, id: &str) -> (r: FcResult<()>)
        ensures
            final(self).wf(),
    {
        proof {
            use_type_invariant(&*self);
        }
        let ghost before = self@;
        match position(&self.versions, id) {
            Some(i) => {
                proof {
                    lemma_without(before, id@);
                }
                let mut versions: Vec<(String, Version)> = Vec::new();
                proof {
                    lemma_empty::<Seq<char>, Option<Seq<char>>>();
                    assert(ledger_of(versions@) =~= Seq::<(Seq<char>, Option<Seq<char>>)>::empty());
                }
                std::mem::swap(&mut versions, &mut self.versions);
                let _ = versions.remove(i);
                proof {
                    assert(ledger_of(versions@) =~= without(before, id@));
                }
                self.versions = versions;
                Ok(())
            },
            None => Err(
                Error::with_payload(
                    ErrorKind::VersionEntryDoesNotExist,
                    "Deleting a version entry.",
                    &VersionEntryDoesNotExistErrorPayload { version_id: owned_text(id) },
                ),
            ),
        }
    }
}

} // verus!
