//! The errors of the library.
//!
//! Every failure has a kind, the context in which it arose, a payload that
//! describes what it was about, and, where it wraps another failure, that
//! failure as its cause.

use crate::assoc::{
    as_map,
    distinct_keys,
    has_key,
    key_at,
    lemma_empty,
    lemma_position_unique,
    lemma_put,
    put,
};
use crate::text::{joined, lossy_text, lossy_text_of_bytes, owned_text, same_text, text_of_bytes};
use vstd::prelude::*;
use vstd::slice::slice_to_vec;
use vstd::utf8::valid_utf8;

verus! {

/// What the library's fallible functions return.
pub type FcResult<T> = Result<T, Error>;

/// Something that an error can carry to say what it was about.
pub trait Payload {
    /// The text that describes the payload.
    open spec fn text(&self) -> Seq<char> {
        arbitrary()
    }

    /// The payload as a text.
    fn describe(&self) -> (r: String)
        ensures
            r@ == self.text(),
    ;
}

/// A text is a payload: it describes itself.
impl Payload for String {
    open spec fn text(&self) -> Seq<char> {
        self@
    }

    fn describe(&self) -> (r: String) {
        self.clone()
    }
}

/// Something that can stand as a value in a payload of named values.
pub trait KeyValuePayloadValue: Payload {

}

impl KeyValuePayloadValue for String {

}

/// Whether a path could be shown as it is.
#[derive(Clone, Copy, Debug, PartialEq, Eq, Structural)]
pub enum ConversionWasLossy {
    Yes,
    No,
}

impl ConversionWasLossy {
    /// The warning that stands in front of a path; empty where none is due.
    pub open spec fn text(self) -> Seq<char> {
        match self {
            ConversionWasLossy::Yes => "[WARNING: The path might be rendered incorrectly in this error message, as lossless conversion to unicode wasn't possible.] "@,
            ConversionWasLossy::No => ""@,
        }
    }

    pub fn as_str(&self) -> (r: &'static str)
        ensures
            r@ == self.text(),
    {
        match *self {
            ConversionWasLossy::Yes => "[WARNING: The path might be rendered incorrectly in this error message, as lossless conversion to unicode wasn't possible.] ",
            ConversionWasLossy::No => "",
        }
    }
}

/// A path as an error message shows it.
///
/// A path is bytes and need not be a text. Where it is none, the message
/// shows a lossy rendering and says so. This rendering is for messages only:
/// nothing that is stored or hashed goes through it.
#[derive(Debug)]
pub struct ErrorPathBuf {
    string: String,
    conversion_was_lossy: ConversionWasLossy,
}

impl ErrorPathBuf {
    /// The text shown for the path.
    pub closed spec fn shown(&self) -> Seq<char> {
        self.string@
    }

    /// Whether the rendering lost anything.
    pub closed spec fn lossy(&self) -> ConversionWasLossy {
        self.conversion_was_lossy
    }

    /// What a message shows for `path`: the path itself where it is UTF-8,
    /// and a warning and a lossy text where it is not.
    pub open spec fn rendering(path: Seq<u8>) -> Seq<char> {
        if valid_utf8(path) {
            ConversionWasLossy::No.text() + vstd::utf8::decode_utf8(path)
        } else {
            ConversionWasLossy::Yes.text() + lossy_text(path)
        }
    }

    /// The rendering of `path`.
    pub fn from_path(path: &[u8]) -> (r: Self)
        ensures
            r.text() == Self::rendering(path@),
            r.lossy() == if valid_utf8(path@) {
                ConversionWasLossy::No
            } else {
                ConversionWasLossy::Yes
            },
    {
        match text_of_bytes(slice_to_vec(path)) {
            Some(text) => {
                proof {
                    vstd::utf8::encode_utf8_valid_utf8(text@);
                    vstd::utf8::encode_utf8_decode_utf8(text@);
                }
                ErrorPathBuf { string: text, conversion_was_lossy: ConversionWasLossy::No }
            },
            None => ErrorPathBuf {
                string: lossy_text_of_bytes(path),
                conversion_was_lossy: ConversionWasLossy::Yes,
            },
        }
    }

    /// The warning, if one is due, and then the path.
    pub open spec fn text(&self) -> Seq<char> {
        self.lossy().text() + self.shown()
    }

    /// The rendering as a text.
    pub fn describe(&self) -> (r: String)
        ensures
            r@ == self.text(),
    {
        joined(owned_text(self.conversion_was_lossy.as_str()), self.string.as_str())
    }
}

/// The kinds of failure.
#[derive(Clone, Copy, Debug, PartialEq, Eq, Structural)]
pub enum ErrorKind {
    /// A stored object could not be read or written.
    RepoFileOperationFailed,
    /// A path that is already tracked was to be tracked.
    FileAlreadyTracked,
    /// A version that the ledger does not hold was asked for.
    VersionEntryDoesNotExist,
    /// A version was to be added under an id that is taken.
    VersionEntryAlreadyExists,
    /// A path that is not tracked was asked for.
    UntrackedFile,
    /// A name that leads out of its collection.
    DoubleDotFileName,
    /// A name that the collection does not hold.
    PathDoesNotExistInCollection,
    /// A test site was not what the test took it for.
    TestSetupSafetyCheckFailed,
    /// An object could not be put into its collection.
    PuttingFileIntoCollectionFailed,
    /// The storage backend failed.
    Io,
    /// A JSON document could not be read or written.
    Serde,
    /// Stored bytes are not the canonical form of any document.
    MalformedDocument,
}

impl ErrorKind {
    /// The sentence that names the kind.
    pub open spec fn text(self) -> Seq<char> {
        match self {
            ErrorKind::RepoFileOperationFailed => "Repo-file operation failed."@,
            ErrorKind::FileAlreadyTracked => "File already tracked."@,
            ErrorKind::VersionEntryDoesNotExist => "Version entry doesn't exist."@,
            ErrorKind::VersionEntryAlreadyExists => "Version entry already exists."@,
            ErrorKind::UntrackedFile => "Path for which there is no file tracked encountered."@,
            ErrorKind::DoubleDotFileName => "Double-dot (..) file name encountered."@,
            ErrorKind::PathDoesNotExistInCollection => "Path doesn't exist in collection."@,
            ErrorKind::PuttingFileIntoCollectionFailed => "Putting file into collection failed."@,
            ErrorKind::TestSetupSafetyCheckFailed => "Test setup safety check failed."@,
            ErrorKind::Io => "Standard IO Error: std::io::Error."@,
            ErrorKind::Serde => "Error with JSON (de)serialization: serde_json::Error."@,
            ErrorKind::MalformedDocument => "Stored document is not in canonical form."@,
        }
    }

    pub fn as_str(&self) -> (r: &'static str)
        ensures
            r@ == self.text(),
    {
        match *self {
            ErrorKind::RepoFileOperationFailed => "Repo-file operation failed.",
            ErrorKind::FileAlreadyTracked => "File already tracked.",
            ErrorKind::VersionEntryDoesNotExist => "Version entry doesn't exist.",
            ErrorKind::VersionEntryAlreadyExists => "Version entry already exists.",
            ErrorKind::UntrackedFile => "Path for which there is no file tracked encountered.",
            ErrorKind::DoubleDotFileName => "Double-dot (..) file name encountered.",
            ErrorKind::PathDoesNotExistInCollection => "Path doesn't exist in collection.",
            ErrorKind::PuttingFileIntoCollectionFailed => "Putting file into collection failed.",
            ErrorKind::TestSetupSafetyCheckFailed => "Test setup safety check failed.",
            ErrorKind::Io => "Standard IO Error: std::io::Error.",
            ErrorKind::Serde => "Error with JSON (de)serialization: serde_json::Error.",
            ErrorKind::MalformedDocument => "Stored document is not in canonical form.",
        }
    }
}

/// The failure that another failure wraps.
#[derive(Debug)]
pub enum WrappedError {
    /// A failure of this library.
    Fc(Box<Error>),
    /// A failure of the storage backend, as the backend described it.
    Io(String),
    /// A failure to read or write JSON, as the JSON library described it.
    Serde(String),
}

impl WrappedError {
    /// What the wrapped failure says of itself.
    pub open spec fn text(&self) -> Seq<char> {
        match self {
            WrappedError::Fc(cause) => cause.text(),
            WrappedError::Io(description) => description@,
            WrappedError::Serde(description) => description@,
        }
    }

    /// The wrapped failure as a text.
    pub fn describe(&self) -> (r: String)
        ensures
            r@ == self.text(),
    {
        match self {
            WrappedError::Fc(cause) => cause.describe(),
            WrappedError::Io(description) => description.clone(),
            WrappedError::Serde(description) => description.clone(),
        }
    }
}

/// A failure.
#[derive(Debug)]
pub struct Error {
    pub kind: ErrorKind,
    pub context: String,
    pub payload: Option<String>,
    pub wrapped: Option<WrappedError>,
}

impl Error {
    /// A failure of the kind `kind` that arose while doing `context`.
    pub fn new(
        kind: ErrorKind,
        context: &str,
        payload: Option<String>,
        wrapped: Option<WrappedError>,
    ) -> (r: Self)
        ensures
            r.kind == kind,
            r.context@ == context@,
            r.payload == payload,
            r.wrapped == wrapped,
    {
        Error { kind, context: owned_text(context), payload, wrapped }
    }

    /// A failure with neither payload nor cause.
    pub fn plain(kind: ErrorKind, context: &str) -> (r: Self)
        ensures
            r.kind == kind,
            r.context@ == context@,
            r.payload is None,
            r.wrapped is None,
    {
        Error::new(kind, context, None, None)
    }

    /// A failure that carries `payload`.
    pub fn with_payload<P: Payload>(kind: ErrorKind, context: &str, payload: &P) -> (r: Self)
        ensures
            r.kind == kind,
            r.context@ == context@,
            r.payload matches Some(text) && text@ == payload.text(),
            r.wrapped is None,
    {
        Error::new(kind, context, Some(payload.describe()), None)
    }

    /// A failure of the kind `kind` whose cause is `cause`.
    pub fn wrapping(kind: ErrorKind, context: &str, payload: Option<String>, cause: Error) -> (r:
        Self)
        ensures
            r.kind == kind,
            r.context@ == context@,
            r.payload == payload,
            r.wrapped == Some(WrappedError::Fc(Box::new(cause))),
    {
        Error::new(kind, context, payload, Some(WrappedError::Fc(Box::new(cause))))
    }

    /// The failure of a storage backend that the backend described as
    /// `description`.
    pub fn from_io(description: String) -> (r: Self)
        ensures
            r.kind == ErrorKind::Io,
            r.context@ == "<converted from std::io::Error>"@,
            r.payload is None,
            r.wrapped == Some(WrappedError::Io(description)),
    {
        Error::new(
            ErrorKind::Io,
            "<converted from std::io::Error>",
            None,
            Some(WrappedError::Io(description)),
        )
    }

    /// The failure to read or write JSON that the JSON library described as
    /// `description`.
    pub fn from_serde(description: String) -> (r: Self)
        ensures
            r.kind == ErrorKind::Serde,
            r.context@ == "<converted from serde_json::Error>"@,
            r.payload is None,
            r.wrapped == Some(WrappedError::Serde(description)),
    {
        Error::new(
            ErrorKind::Serde,
            "<converted from serde_json::Error>",
            None,
            Some(WrappedError::Serde(description)),
        )
    }

    /// The failure of this library that this failure wraps, if it wraps
    /// one.
    pub fn source(&self) -> (r: Option<&Error>)
        ensures
            match r {
                Some(cause) => self.wrapped == Some(WrappedError::Fc(Box::new(*cause))),
                None => !(self.wrapped matches Some(WrappedError::Fc(_))),
            },
    {
        match &self.wrapped {
            Some(WrappedError::Fc(cause)) => Some(&**cause),
            _ => None,
        }
    }

    /// The kind of the failure at the bottom of the chain of causes: the
    /// failure that was not raised on account of another failure of this
    /// library.
    pub open spec fn root_kind(&self) -> ErrorKind
        decreases self,
    {
        match self.wrapped {
            Some(WrappedError::Fc(cause)) => cause.root_kind(),
            _ => self.kind,
        }
    }

    /// The sentence that a message for this failure starts with.
    pub open spec fn text(&self) -> Seq<char> {
        "Error: "@ + self.kind.text() + "."@
    }

    /// The failure as a text.
    pub fn describe(&self) -> (r: String)
        ensures
            r@ == self.text(),
    {
        joined(joined(owned_text("Error: "), self.kind.as_str()), ".")
    }
}

/// A payload of named values.
#[derive(Debug)]
pub struct KeyValuePayload {
    store: Vec<(String, String)>,
}

/// The names and values that `store` holds, as contracts speak of them.
spec fn pairs_of(store: Seq<(String, String)>) -> Seq<(Seq<char>, Seq<char>)> {
    store.map_values(|p: (String, String)| (p.0@, p.1@))
}

impl View for KeyValuePayload {
    type V = Map<Seq<char>, Seq<char>>;

    open spec fn view(&self) -> Map<Seq<char>, Seq<char>> {
        as_map(self.pairs())
    }
}

/// The text of the names and values: each name, then its value, then a line
/// feed.
pub open spec fn pairs_text(pairs: Seq<(Seq<char>, Seq<char>)>) -> Seq<char>
    decreases pairs.len(),
{
    if pairs.len() == 0 {
        Seq::empty()
    } else {
        pairs_text(pairs.drop_last()) + pairs.last().0 + pairs.last().1 + "\n"@
    }
}

impl Payload for KeyValuePayload {
    open spec fn text(&self) -> Seq<char> {
        pairs_text(self.pairs())
    }

    fn describe(&self) -> (r: String) {
        let mut out = String::new();
        let mut i: usize = 0;
        proof {
            assert(self.pairs().take(0) =~= Seq::<(Seq<char>, Seq<char>)>::empty());
        }
        while i < self.store.len()
            invariant
                i <= self.store.len(),
                out@ == pairs_text(self.pairs().take(i as int)),
            decreases self.store.len() - i,
        {
            proof {
                let next = self.pairs().take(i + 1);
                assert(next.drop_last() =~= self.pairs().take(i as int));
                assert(next.last() == self.pairs()[i as int]);
            }
            out = joined(
                joined(joined(out, self.store[i].0.as_str()), self.store[i].1.as_str()),
                "\n",
            );
            i += 1;
        }
        proof {
            assert(self.pairs().take(i as int) =~= self.pairs());
        }
        out
    }
}

impl KeyValuePayload {
    /// The names and values in the order in which they were first added.
    pub closed spec fn pairs(&self) -> Seq<(Seq<char>, Seq<char>)> {
        pairs_of(self.store@)
    }

    /// No name occurs twice.
    #[verifier::type_invariant]
    closed spec fn inv(&self) -> bool {
        distinct_keys(pairs_of(self.store@))
    }

    /// A payload without values.
    pub fn new() -> (r: Self)
        ensures
            r@ == Map::<Seq<char>, Seq<char>>::empty(),
            r.pairs() == Seq::<(Seq<char>, Seq<char>)>::empty(),
    {
        let store: Vec<(String, String)> = Vec::new();
        proof {
            lemma_empty::<Seq<char>, Seq<char>>();
            assert(pairs_of(store@) =~= Seq::<(Seq<char>, Seq<char>)>::empty());
        }
        KeyValuePayload { store }
    }

    /// The payload with `value` under the name `key`, in place of what stood
    /// under that name before.
    pub fn add(self, key: &str, value: String) -> (r: Self)
        ensures
            r@ == self@.insert(key@, value@),
            r.pairs() == put(self.pairs(), key@, value@),
    {
        proof {
            use_type_invariant(&self);
        }
        let mut store = self.store;
        let ghost before = pairs_of(store@);
        proof {
            lemma_put(before, key@, value@);
        }
        let mut i: usize = 0;
        while i < store.len()
            invariant
                i <= store.len(),
                pairs_of(store@) == before,
                self@ == as_map(before),
                self.pairs() == before,
                distinct_keys(before),
                forall|j: int| 0 <= j < i ==> before[j].0 != key@,
            decreases store.len() - i,
        {
            if same_text(store[i].0.as_str(), key) {
                proof {
                    assert(key_at(before, key@, i as int));
                    lemma_position_unique(before, key@, i as int);
                    lemma_put(before, key@, value@);
                }
                store.set(i, (owned_text(key), value));
                proof {
                    assert(pairs_of(store@) =~= put(before, key@, value@));
                }
                return KeyValuePayload { store };
            }
            i += 1;
        }
        proof {
            if has_key(before, key@) {
                let p = crate::assoc::position_of(before, key@);
                assert(key_at(before, key@, p));
            }
        }
        store.push((owned_text(key), value));
        proof {
            assert(pairs_of(store@) =~= put(before, key@, value@));
        }
        KeyValuePayload { store }
    }
}

} // verus!
