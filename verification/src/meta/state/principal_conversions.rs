//! The one way from the ledger to its bytes and back.
//!
//! The canonical form of the ledger is a text of one line for each version,
//! in the order of the ledger. A line holds the id of the version and, where
//! the version refers to an index, the hash of that index:
//!
//! ```text
//! version ID
//! version ID HASH
//! ```

use crate::assoc::{key_at, position_of};
use crate::codec::{
    item,
    lemma_split_text_of_item,
    push_text_item,
    split_text,
    take_text,
    NEWLINE,
    SPACE,
};
use crate::error::{Error, ErrorKind, FcResult};
use crate::meta::blob::model::Blob;
use crate::meta::state::{ledger_wf, State, StateAccessor};
use crate::meta::version::model::Version;
use crate::order::equal_bytes;
use crate::text::{same_text, text_bytes};
use vstd::prelude::*;

verus! {

/// The versions of a ledger with their ids, as contracts speak of them.
pub type Ledger = Seq<(Seq<char>, Option<Seq<char>>)>;

/// The line of one version, followed by `rest`.
pub open spec fn version_bytes(entry: (Seq<char>, Option<Seq<char>>), rest: Seq<u8>) -> Seq<u8> {
    match entry.1 {
        None => item(text_bytes("version"@), SPACE, item(text_bytes(entry.0), NEWLINE, rest)),
        Some(hash) => item(
            text_bytes("version"@),
            SPACE,
            item(text_bytes(entry.0), SPACE, item(text_bytes(hash), NEWLINE, rest)),
        ),
    }
}

/// The canonical bytes of a ledger.
pub open spec fn state_bytes(ledger: Ledger) -> Seq<u8>
    decreases ledger.len(),
{
    if ledger.len() == 0 {
        Seq::empty()
    } else {
        version_bytes(ledger[0], state_bytes(ledger.skip(1)))
    }
}

/// Reads the line of one version from the front of `bytes`.
pub open spec fn parse_version(bytes: Seq<u8>) -> Option<
    ((Seq<char>, Option<Seq<char>>), Seq<u8>),
> {
    match split_text(bytes) {
        Some((tag, after, after_tag)) => if after != SPACE || tag != "version"@ {
            None
        } else {
            match split_text(after_tag) {
                Some((id, sep, after_id)) => if sep == NEWLINE {
                    Some(((id, None), after_id))
                } else {
                    match split_text(after_id) {
                        Some((hash, end, rest)) => if end != NEWLINE {
                            None
                        } else {
                            Some(((id, Some(hash)), rest))
                        },
                        None => None,
                    }
                },
                None => None,
            }
        },
        None => None,
    }
}

/// Reads lines of versions until `bytes` is used up. A line takes up bytes, so
/// that what follows it is shorter; the test for that is there to show that
/// the reading comes to an end.
pub open spec fn parse_versions(bytes: Seq<u8>) -> Option<Ledger>
    decreases bytes.len(),
{
    if bytes.len() == 0 {
        Some(Seq::empty())
    } else {
        match parse_version(bytes) {
            Some((entry, rest)) => if rest.len() < bytes.len() {
                match parse_versions(rest) {
                    Some(more) => Some(seq![entry] + more),
                    None => None,
                }
            } else {
                None
            },
            None => None,
        }
    }
}

/// Puts `front` in front of the versions that were read behind it.
pub open spec fn prepend_versions(front: Ledger, more: Option<Ledger>) -> Option<Ledger> {
    match more {
        Some(entries) => Some(front + entries),
        None => None,
    }
}

/// The line of a version is read back as the version, and what follows the
/// line is left over.
pub proof fn lemma_parse_version(entry: (Seq<char>, Option<Seq<char>>), rest: Seq<u8>)
    ensures
        parse_version(version_bytes(entry, rest)) == Some((entry, rest)),
        version_bytes(entry, rest).len() > rest.len(),
{
    match entry.1 {
        None => {
            let after_tag = item(text_bytes(entry.0), NEWLINE, rest);
            lemma_split_text_of_item("version"@, SPACE, after_tag);
            lemma_split_text_of_item(entry.0, NEWLINE, rest);
        },
        Some(hash) => {
            let after_id = item(text_bytes(hash), NEWLINE, rest);
            let after_tag = item(text_bytes(entry.0), SPACE, after_id);
            lemma_split_text_of_item("version"@, SPACE, after_tag);
            lemma_split_text_of_item(entry.0, SPACE, after_id);
            lemma_split_text_of_item(hash, NEWLINE, rest);
        },
    }
}

/// The lines of a ledger are read back as its versions.
pub proof fn lemma_parse_versions(ledger: Ledger)
    ensures
        parse_versions(state_bytes(ledger)) == Some(ledger),
    decreases ledger.len(),
{
    if ledger.len() == 0 {
        assert(ledger =~= Ledger::empty());
    } else {
        let rest = state_bytes(ledger.skip(1));
        lemma_parse_version(ledger[0], rest);
        lemma_parse_versions(ledger.skip(1));
        assert(seq![ledger[0]] + ledger.skip(1) =~= ledger);
    }
}

/// The ledger whose canonical bytes `bytes` are, if they are those of any.
pub open spec fn decode_ledger(bytes: Seq<u8>) -> Option<Ledger> {
    if exists|ledger: Ledger| ledger_wf(ledger) && #[trigger] state_bytes(ledger) == bytes {
        Some(choose|ledger: Ledger| ledger_wf(ledger) && #[trigger] state_bytes(ledger) == bytes)
    } else {
        None
    }
}

/// Two ledgers with the same canonical bytes are the same ledger.
pub proof fn lemma_state_bytes_injective(a: Ledger, b: Ledger)
    requires
        state_bytes(a) == state_bytes(b),
    ensures
        a == b,
{
    lemma_parse_versions(a);
    lemma_parse_versions(b);
}

/// The canonical bytes of a ledger are read back as that ledger.
pub proof fn lemma_decode_ledger(ledger: Ledger)
    requires
        ledger_wf(ledger),
    ensures
        decode_ledger(state_bytes(ledger)) == Some(ledger),
{
    let bytes = state_bytes(ledger);
    let found = choose|l: Ledger| ledger_wf(l) && #[trigger] state_bytes(l) == bytes;
    lemma_state_bytes_injective(found, ledger);
}

/// Appends the line of one version to `out`.
fn write_version(out: &mut Vec<u8>, id: &str, version: &Version)
    ensures
        final(out)@ == old(out)@ + version_bytes((id@, version@), Seq::empty()),
{
    let ghost before = out@;
    push_text_item(out, "version", SPACE);
    match &version.index {
        None => {
            push_text_item(out, id, NEWLINE);
        },
        Some(hash) => {
            push_text_item(out, id, SPACE);
            push_text_item(out, hash.as_str(), NEWLINE);
        },
    }
    proof {
        assert(out@ =~= before + version_bytes((id@, version@), Seq::empty()));
    }
}

/// Reads the line of one version at `start`.
fn read_version(bytes: &[u8], start: usize) -> (r: Option<((String, Version), usize)>)
    requires
        start <= bytes.len(),
    ensures
        match r {
            Some((entry, next)) => start < next <= bytes@.len() && parse_version(
                bytes@.skip(start as int),
            ) == Some(((entry.0@, entry.1@), bytes@.skip(next as int))),
            None => parse_version(bytes@.skip(start as int)) is None,
        },
{
    match take_text(bytes, start) {
        Some((tag, after, after_tag)) => {
            if after != SPACE || !same_text(tag.as_str(), "version") {
                return None;
            }
            match take_text(bytes, after_tag) {
                Some((id, sep, after_id)) => {
                    if sep == NEWLINE {
                        return Some(((id, Version::new()), after_id));
                    }
                    match take_text(bytes, after_id) {
                        Some((hash, end, next)) => {
                            if end != NEWLINE {
                                return None;
                            }
                            Some(((id, Version::new_with_index(hash.as_str())), next))
                        },
                        None => None,
                    }
                },
                None => None,
            }
        },
        None => None,
    }
}

/// Reads lines of versions until `bytes` is used up.
fn read_versions(bytes: &[u8]) -> (r: Option<Vec<(String, Version)>>)
    ensures
        match r {
            Some(versions) => parse_versions(bytes@) == Some(
                versions@.map_values(|e: (String, Version)| (e.0@, e.1@)),
            ),
            None => parse_versions(bytes@) is None,
        },
{
    let mut versions: Vec<(String, Version)> = Vec::new();
    let mut pos: usize = 0;
    let ghost view_of = |e: (String, Version)| (e.0@, e.1@);
    proof {
        assert(bytes@.skip(0) =~= bytes@);
        assert(versions@.map_values(view_of) + parse_versions(bytes@).unwrap()
            =~= parse_versions(bytes@).unwrap());
    }
    while pos < bytes.len()
        invariant
            pos <= bytes.len(),
            view_of == |e: (String, Version)| (e.0@, e.1@),
            parse_versions(bytes@) == prepend_versions(
                versions@.map_values(view_of),
                parse_versions(bytes@.skip(pos as int)),
            ),
        decreases bytes.len() - pos,
    {
        let ghost so_far = versions@.map_values(view_of);
        match read_version(bytes, pos) {
            Some((entry, next)) => {
                let ghost entry_view = (entry.0@, entry.1@);
                versions.push(entry);
                proof {
                    let rest = bytes@.skip(next as int);
                    assert(versions@.map_values(view_of) =~= so_far + seq![entry_view]);
                    match parse_versions(rest) {
                        Some(more) => {
                            assert(so_far + (seq![entry_view] + more) =~= versions@.map_values(
                                view_of,
                            ) + more);
                        },
                        None => {},
                    }
                }
                pos = next;
            },
            None => {
                return None;
            },
        }
    }
    proof {
        assert(bytes@.skip(pos as int).len() == 0);
        assert(versions@.map_values(view_of) + Ledger::empty() =~= versions@.map_values(view_of));
    }
    Some(versions)
}

/// The line of a version followed by `rest` is the line and then `rest`.
proof fn lemma_version_bytes_then(entry: (Seq<char>, Option<Seq<char>>), rest: Seq<u8>)
    ensures
        version_bytes(entry, rest) == version_bytes(entry, Seq::empty()) + rest,
{
    assert(version_bytes(entry, rest) =~= version_bytes(entry, Seq::empty()) + rest);
}

impl Blob {
    /// The canonical bytes of `state`.
    pub fn try_from_state(state: State) -> (r: FcResult<Blob>)
        ensures
            r matches Ok(blob) && blob@ == state_bytes(state@),
    {
        let mut out: Vec<u8> = Vec::new();
        let mut i: usize = 0;
        proof {
            assert(state@.skip(0) =~= state@);
            assert(out@ + state_bytes(state@) =~= state_bytes(state@));
        }
        while i < state.len()
            invariant
                i <= state@.len(),
                out@ + state_bytes(state@.skip(i as int)) == state_bytes(state@),
            decreases state@.len() - i,
        {
            let ghost before = out@;
            write_version(&mut out, state.id_at(i), state.version_at(i));
            proof {
                let here = state@.skip(i as int);
                let rest = state_bytes(state@.skip(i + 1));
                assert(here.skip(1) =~= state@.skip(i + 1));
                assert(here[0] == state@[i as int]);
                lemma_version_bytes_then(here[0], rest);
                assert(out@ + rest =~= before + state_bytes(here));
            }
            i += 1;
        }
        proof {
            assert(state_bytes(state@.skip(i as int)) =~= Seq::<u8>::empty());
            assert(out@ + Seq::<u8>::empty() =~= out@);
        }
        Ok(Blob::from_vec(out))
    }
}

impl State {
    /// The ledger whose canonical bytes `blob` holds. It fails, with the
    /// kind `MalformedDocument`, where `blob` is not the canonical form of
    /// any ledger.
    pub fn try_from_blob(blob: Blob) -> (r: FcResult<Self>)
        ensures
            match r {
                Ok(state) => state.wf() && state_bytes(state@) == blob@,
                Err(e) => {
                    &&& forall|ledger: Ledger|
                        ledger_wf(ledger) ==> #[trigger] state_bytes(ledger) != blob@
                    &&& e.kind == ErrorKind::MalformedDocument
                    &&& e.wrapped is None
                },
            },
    {
        let ghost bytes = blob@;
        let versions = match read_versions(blob.as_slice()) {
            Some(versions) => versions,
            None => {
                proof {
                    assert forall|ledger: Ledger| ledger_wf(ledger) implies #[trigger] state_bytes(
                        ledger,
                    ) != bytes by {
                        if state_bytes(ledger) == bytes {
                            lemma_parse_versions(ledger);
                        }
                    }
                }
                return Err(
                    Error::plain(ErrorKind::MalformedDocument, "Reading the lines of a ledger."),
                );
            },
        };
        let ghost read = versions@.map_values(|e: (String, Version)| (e.0@, e.1@));
        let mut state = State::new();
        let mut i: usize = 0;
        proof {
            assert(read.take(0) =~= Ledger::empty());
        }
        while i < versions.len()
            invariant
                i <= versions.len(),
                read == versions@.map_values(|e: (String, Version)| (e.0@, e.1@)),
                parse_versions(bytes) == Some(read),
                bytes == blob@,
                state.wf(),
                state@ == read.take(i as int),
            decreases versions.len() - i,
        {
            let ghost before = state@;
            match state.add_version(versions[i].0.as_str(), versions[i].1.clone()) {
                Ok(_) => {
                    proof {
                        assert(read[i as int] == (versions@[i as int].0@, versions@[i as int].1@));
                        assert(read.take(i + 1) =~= read.take(i as int).push(read[i as int]));
                    }
                },
                Err(e) => {
                    proof {
                        assert forall|ledger: Ledger| ledger_wf(ledger) implies #[trigger] state_bytes(
                            ledger,
                        ) != bytes by {
                            if state_bytes(ledger) == bytes {
                                lemma_parse_versions(ledger);
                                let id = read[i as int].0;
                                let p = position_of(before, id);
                                assert(key_at(before, id, p));
                                assert(ledger[p].0 != ledger[i as int].0);
                            }
                        }
                    }
                    return Err(
                        Error::plain(
                            ErrorKind::MalformedDocument,
                            "Reading a ledger in which an id occurs twice.",
                        ),
                    );
                },
            }
            i += 1;
        }
        proof {
            assert(read.take(i as int) =~= read);
        }
        let again = match Blob::try_from_state(state.clone()) {
            Ok(again) => again,
            Err(e) => {
                return Err(e);
            },
        };
        if equal_bytes(again.as_slice(), blob.as_slice()) {
            Ok(state)
        } else {
            proof {
                assert forall|ledger: Ledger| ledger_wf(ledger) implies #[trigger] state_bytes(
                    ledger,
                ) != bytes by {
                    if state_bytes(ledger) == bytes {
                        lemma_parse_versions(ledger);
                    }
                }
            }
            Err(
                Error::plain(
                    ErrorKind::MalformedDocument,
                    "Holding the lines of a ledger against its canonical form.",
                ),
            )
        }
    }
}

} // verus!
