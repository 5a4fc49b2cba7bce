use crate::error::{ErrorKind, FcResult};
use crate::files::blob::BlobProvider;
use crate::files::state::StateFile;
use crate::files::RepoFileCollection;
use crate::meta::state::ledger_wf;
use crate::meta::state::principal_conversions::{state_bytes, Ledger};
use crate::opaque_collection_handler::OpaqueCollectionHandler;
use vstd::prelude::*;

verus! {

/// The place of the ledger of a repository. The ledger stands under one
/// name that is known beforehand, not under a hash: there is one ledger,
/// and it changes.
pub trait StateFileCollection {
    /// The bytes of the stored ledger, if a ledger is stored.
    open spec fn stored(&self) -> Option<Seq<u8>> {
        arbitrary()
    }

    /// Whether the backend of the collection is reliable.
    open spec fn reliable(&self) -> bool {
        false
    }

    /// Whether a ledger is stored.
    fn has_state(&self) -> (r: FcResult<bool>)
        ensures
            r matches Ok(found) ==> found == self.stored().is_some(),
            self.reliable() ==> r is Ok,
    ;

    /// The file of a ledger without versions. Nothing is written yet.
    fn create_unwritten_empty_state_file_box(&self) -> (r: Box<StateFile>)
        ensures
            r.state@ == Ledger::empty(),
    ;

    /// The stored ledger.
    ///
    /// On a reliable backend it fails in two cases. Where no ledger is
    /// stored, the kind is `PathDoesNotExistInCollection`. Where the stored
    /// bytes are not the canonical form of any ledger, the kind is
    /// `MalformedDocument`.
    fn get_state_file(&self) -> (r: FcResult<Box<StateFile>>)
        ensures
            match r {
                Ok(file) => {
                    &&& self.stored() is Some
                    &&& file.state.wf()
                    &&& state_bytes(file.state@) == self.stored().unwrap()
                },
                Err(e) => self.reliable() ==> match self.stored() {
                    Some(bytes) => {
                        &&& forall|ledger: Ledger|
                            ledger_wf(ledger) ==> #[trigger] state_bytes(ledger) != bytes
                        &&& e.kind == ErrorKind::MalformedDocument
                        &&& e.wrapped is None
                    },
                    None => e.kind == ErrorKind::PathDoesNotExistInCollection && e.wrapped is None,
                },
            },
    ;

    /// Stores the ledger in place of the one that was stored. On a reliable
    /// backend it succeeds.
    fn put_state_file(&mut self, state_file: Box<StateFile>) -> (r: FcResult<()>)
        ensures
            final(self).reliable() == old(self).reliable(),
            match r {
                Ok(_) => final(self).stored() == Some(state_bytes(state_file.state@)),
                Err(e) => !old(self).reliable(),
            },
    ;
}

/// The place of the ledger on any backend.
pub struct MiscStateFileCollection<Handler: OpaqueCollectionHandler> {
    pub handler: Handler,
    file_name: String,
}

impl<Handler: OpaqueCollectionHandler> MiscStateFileCollection<Handler> {
    /// The name under which the ledger stands.
    pub closed spec fn file_name(&self) -> Seq<char> {
        self.file_name@
    }

    /// The backend that holds the ledger.
    pub closed spec fn backend(&self) -> Handler {
        self.handler
    }

    /// The place of the ledger: the file that `handler` holds under
    /// `file_name`.
    pub fn new(handler: Handler, file_name: String) -> (r: Self)
        ensures
            r.backend() == handler,
            r.file_name() == file_name@,
    {
        MiscStateFileCollection { handler, file_name }
    }

    /// The name under which the ledger stands.
    pub fn clone_file_name(&self) -> (r: String)
        ensures
            r@ == self.file_name(),
    {
        self.file_name.clone()
    }
}

impl<Handler: OpaqueCollectionHandler> RepoFileCollection for MiscStateFileCollection<Handler> {

}

impl<Handler: OpaqueCollectionHandler> StateFileCollection for MiscStateFileCollection<Handler> {
    open spec fn stored(&self) -> Option<Seq<u8>> {
        if self.backend().files().contains_key(self.file_name()) {
            Some(self.backend().files()[self.file_name()])
        } else {
            None
        }
    }

    open spec fn reliable(&self) -> bool {
        self.backend().reliable()
    }

    fn has_state(&self) -> (r: FcResult<bool>) {
        self.handler.has_file(self.file_name.as_str())
    }

    fn create_unwritten_empty_state_file_box(&self) -> (r: Box<StateFile>) {
        Box::new(StateFile::new())
    }

    fn get_state_file(&self) -> (r: FcResult<Box<StateFile>>) {
        let bytes = match self.handler.read_file(self.file_name.as_str()) {
            Ok(bytes) => bytes,
            Err(e) => {
                return Err(e);
            },
        };
        match StateFile::from_existing(bytes.as_slice()) {
            Ok(state_file) => Ok(Box::new(state_file)),
            Err(e) => Err(e),
        }
    }

    fn put_state_file(&mut self, state_file: Box<StateFile>) -> (r: FcResult<()>) {
        let blob = match state_file.clone_blob() {
            Ok(blob) => blob,
            Err(e) => {
                proof {
                    assert(false);
                }
                return Err(e);
            },
        };
        let found = match self.handler.has_file(self.file_name.as_str()) {
            Ok(found) => found,
            Err(e) => {
                return Err(e);
            },
        };
        if !found {
            match self.handler.create_file(self.file_name.as_str()) {
                Ok(_) => {},
                Err(e) => {
                    return Err(e);
                },
            }
        }
        match self.handler.write_file(self.file_name.as_str(), blob.as_slice()) {
            Ok(_) => Ok(()),
            Err(e) => Err(e),
        }
    }
}

} // verus!
