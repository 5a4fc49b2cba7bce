use crate::error::{Error, ErrorKind, FcResult};
use crate::files::blob::BlobProvider;
use crate::files::{append_bytes, AccessRepoFileErrorPayload, OffendingAction, RepoFile};
use crate::meta::blob::model::Blob;
use crate::meta::state::principal_conversions::{state_bytes, Ledger};
use crate::meta::state::{ledger_wf, State};
use crate::error::Payload;
use vstd::prelude::*;
use vstd::slice::slice_to_vec;

verus! {

/// Something that holds the ledger.
pub trait StateProvider {
    /// The ledger that is held.
    open spec fn provided(&self) -> Ledger {
        arbitrary()
    }

    /// The ledger that is held.
    fn get_state_ref(&self) -> (r: FcResult<&State>)
        ensures
            r matches Ok(state) ==> state@ == self.provided(),
    ;
}

/// The stored ledger.
pub trait RepoStateFile: RepoFile + StateProvider {

}

/// The ledger as a repository stores it.
///
/// The ledger is held in memory as it is. Its bytes are made when they are
/// asked for, and they are made in one way only: they are the canonical
/// bytes of the ledger.
#[derive(Debug)]
pub struct StateFile {
    pub state: State,
}

impl StateFile {
    /// The file of a ledger without versions. Nothing is written yet.
    pub fn new() -> (r: Self)
        ensures
            r.state@ == Ledger::empty(),
    {
        StateFile { state: State::new() }
    }

    /// The file of the ledger whose canonical bytes `readable` holds. It
    /// fails, with the kind `MalformedDocument`, where `readable` is not the
    /// canonical form of any ledger.
    pub fn from_existing(readable: &[u8]) -> (r: FcResult<Self>)
        ensures
            match r {
                Ok(file) => file.state.wf() && state_bytes(file.state@) == readable@,
                Err(e) => {
                    &&& forall|ledger: Ledger|
                        ledger_wf(ledger) ==> #[trigger] state_bytes(ledger) != readable@
                    &&& e.kind == ErrorKind::MalformedDocument
                    &&& e.wrapped is None
                },
            },
    {
        match State::try_from_blob(Blob::from_vec(slice_to_vec(readable))) {
            Ok(state) => Ok(StateFile { state }),
            Err(e) => Err(e),
        }
    }
}

impl BlobProvider for StateFile {
    open spec fn blob(&self) -> Seq<u8> {
        state_bytes(self.state@)
    }

    open spec fn available(&self) -> bool {
        true
    }

    fn clone_blob(&self) -> (r: FcResult<Blob>) {
        Blob::try_from_state(self.state.clone())
    }

    fn into_blob(self) -> (r: FcResult<Blob>) {
        Blob::try_from_state(self.state)
    }
}

impl RepoFile for StateFile {
    /// Where it fails, the error is of the kind `RepoFileOperationFailed`
    /// and wraps the error that says why the bytes were refused.
    fn load(&mut self, readable: &[u8]) -> (r: FcResult<()>)
        ensures
            match r {
                Ok(_) => final(self).state.wf(),
                Err(e) => {
                    &&& final(self).state@ == old(self).state@
                    &&& forall|ledger: Ledger|
                        ledger_wf(ledger) ==> #[trigger] state_bytes(ledger) != readable@
                    &&& e.kind == ErrorKind::RepoFileOperationFailed
                    &&& e.root_kind() == ErrorKind::MalformedDocument
                },
            },
    {
        match State::try_from_blob(Blob::from_vec(slice_to_vec(readable))) {
            Ok(state) => {
                self.state = state;
                Ok(())
            },
            Err(error) => {
                proof {
                    reveal_with_fuel(Error::root_kind, 2);
                }
                Err(
                    Error::wrapping(
                        ErrorKind::RepoFileOperationFailed,
                        "Trying to load state from a Read.",
                        Some(
                            AccessRepoFileErrorPayload::new(
                                OffendingAction::LoadingRepoFile,
                                "State",
                                None,
                                None,
                            ).describe(),
                        ),
                        error,
                    ),
                )
            },
        }
    }

    fn save(&self, writeable: &mut Vec<u8>) -> (r: FcResult<()>)
        ensures
            r is Ok,
    {
        match self.clone_blob() {
            Ok(blob) => {
                append_bytes(writeable, blob.as_slice());
                Ok(())
            },
            Err(e) => Err(e),
        }
    }
}

impl StateProvider for StateFile {
    open spec fn provided(&self) -> Ledger {
        self.state@
    }

    fn get_state_ref(&self) -> (r: FcResult<&State>)
        ensures
            r is Ok,
    {
        Ok(&self.state)
    }
}

impl RepoStateFile for StateFile {

}

} // verus!
