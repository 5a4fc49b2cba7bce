//! The objects of a repository as it stores them, and the collections that
//! hold them.
//!
//! A repository stores three kinds of objects: the ledger, indexes, and the
//! contents of ordinary files. Storage knows them as files, whatever the
//! backend makes of that word.

pub mod blob;
pub mod content_addressed;
pub mod hashable;
pub mod index;
pub mod index_collection;

pub mod state;
pub mod state_collection;

pub mod tracked_collection;
pub mod tracked_file;

pub mod tracked_ordinary_blob;
pub mod tracked_ordinary_blob_collection;


use crate::error::{FcResult, Payload};
use crate::files::blob::BlobProvider;
use crate::text::{joined, owned_text};
use vstd::prelude::*;

verus! {

/// What was being done to a stored object when it went wrong.
#[derive(Clone, Copy, Debug, PartialEq, Eq, Structural)]
pub enum OffendingAction {
    LoadingRepoFile,
    SavingRepoFile,
}

impl OffendingAction {
    /// The words for the action.
    pub open spec fn text(self) -> Seq<char> {
        match self {
            OffendingAction::LoadingRepoFile => "loading repo-file"@,
            OffendingAction::SavingRepoFile => "saving repo-file"@,
        }
    }

    pub fn as_str(&self) -> (r: &'static str)
        ensures
            r@ == self.text(),
    {
        match self {
            OffendingAction::LoadingRepoFile => "loading repo-file",
            OffendingAction::SavingRepoFile => "saving repo-file",
        }
    }
}

/// What an error carries when a stored object could not be read or written.
#[derive(Debug)]
pub struct AccessRepoFileErrorPayload {
    pub offending_action: OffendingAction,
    pub repo_file_identifier: String,
    pub stream_info: Option<String>,
    pub buf_info: Option<String>,
}

impl AccessRepoFileErrorPayload {
    pub fn new(
        offending_action: OffendingAction,
        repo_file_variety: &str,
        stream_info: Option<String>,
        buf_info: Option<String>,
    ) -> (r: Self)
        ensures
            r.offending_action == offending_action,
            r.repo_file_identifier@ == repo_file_variety@,
            r.stream_info == stream_info,
            r.buf_info == buf_info,
    {
        AccessRepoFileErrorPayload {
            offending_action,
            repo_file_identifier: owned_text(repo_file_variety),
            stream_info,
            buf_info,
        }
    }
}

impl AccessRepoFileErrorPayload {
    /// What is known of the stream, behind its heading; nothing where
    /// nothing is known.
    pub open spec fn stream_text(&self) -> Seq<char> {
        match self.stream_info {
            Some(stream_info) => "Stream info: "@ + stream_info@,
            None => ""@,
        }
    }

    /// What is known of the buffer, behind its heading; nothing where
    /// nothing is known.
    pub open spec fn buf_text(&self) -> Seq<char> {
        match self.buf_info {
            Some(buf_info) => "Buf(Reader/Writer) info: "@ + buf_info@,
            None => ""@,
        }
    }

    /// What is known of the stream and of the buffer.
    pub open spec fn infos(&self) -> Seq<char> {
        self.stream_text() + self.buf_text()
    }

    /// The payload as a text, with what is known of the stream and of the
    /// buffer that were in use.
    pub fn describe_in_full(&self) -> (r: String)
        ensures
            r@ == self.text() + self.infos(),
    {
        let mut out = self.describe();
        match &self.stream_info {
            Some(stream_info) => {
                out = joined(joined(out, "Stream info: "), stream_info.as_str());
            },
            None => {
                out = joined(out, "");
            },
        }
        let ghost with_stream = out@;
        match &self.buf_info {
            Some(buf_info) => {
                out = joined(joined(out, "Buf(Reader/Writer) info: "), buf_info.as_str());
            },
            None => {
                out = joined(out, "");
            },
        }
        proof {
            let stream = self.stream_text();
            let buf = self.buf_text();
            assert(with_stream =~= self.text() + stream);
            assert(out@ =~= self.text() + (stream + buf));
        }
        out
    }
}

impl Payload for AccessRepoFileErrorPayload {
    open spec fn text(&self) -> Seq<char> {
        "Failed "@ + self.offending_action.text() + ", file identifier: "@
            + self.repo_file_identifier@ + "."@
    }

    fn describe(&self) -> (r: String) {
        joined(
            joined(
                joined(
                    joined(owned_text("Failed "), self.offending_action.as_str()),
                    ", file identifier: ",
                ),
                self.repo_file_identifier.as_str(),
            ),
            ".",
        )
    }
}

/// An object as a repository stores it. Whether the backend keeps it in a
/// file is of no concern here.
///
/// What is read are the bytes that a reader yielded; what is written is
/// appended to the bytes that a writer takes.
pub trait RepoFile: BlobProvider {
    /// Makes the object what `readable` holds. Where it fails, the object
    /// is as it was.
    fn load(&mut self, readable: &[u8]) -> (r: FcResult<()>)
        ensures
            r is Ok ==> final(self).blob() == readable@,
            r is Err ==> final(self).blob() == old(self).blob(),
    ;

    /// Appends the bytes of the object to `writeable`. Where it fails,
    /// `writeable` is as it was.
    fn save(&self, writeable: &mut Vec<u8>) -> (r: FcResult<()>)
        ensures
            r is Ok ==> final(writeable)@ == old(writeable)@ + self.blob(),
            r is Err ==> final(writeable)@ == old(writeable)@,
    ;
}

/// A collection of stored objects.
pub trait RepoFileCollection {

}

/// Appends `bytes` to `writeable`.
pub fn append_bytes(writeable: &mut Vec<u8>, bytes: &[u8])
    ensures
        final(writeable)@ == old(writeable)@ + bytes@,
{
    let ghost before = writeable@;
    let mut i: usize = 0;
    while i < bytes.len()
        invariant
            i <= bytes.len(),
            writeable@ == before + bytes@.take(i as int),
        decreases bytes.len() - i,
    {
        writeable.push(bytes[i]);
        proof {
            assert(bytes@.take(i + 1) =~= bytes@.take(i as int).push(bytes@[i as int]));
        }
        i += 1;
    }
    proof {
        assert(bytes@.take(i as int) =~= bytes@);
    }
}

} // verus!
