//! The one way from an index to its bytes and back.
//!
//! The canonical form of an index is a text of one line for each entry, in
//! the order of the paths. A line names the kind of the entry, then the key
//! that stands for the path, then what the kind records:
//!
//! ```text
//! non_existing KEY
//! directory KEY USER GROUP
//! ordinary KEY HASH USER GROUP
//! symlink KEY TARGET
//! ```
//!
//! The hash of an index is the hash of these bytes. Nothing else may hash an
//! index: two indexes with the same entries must have the same hash.

use crate::assoc::as_map;
use crate::codec::{
    item,
    lemma_split_text_of_item,
    push_text_item,
    split_text,
    take_text,
    NEWLINE,
    SPACE,
};
use crate::error::{Error, ErrorKind, FcResult};
use crate::meta::blob::model::Blob;
use crate::meta::file_aspects::aspects::directory::TrackedDirectoryAspects;
use crate::meta::file_aspects::aspects::non_existing::TrackedNonExistingAspects;
use crate::meta::file_aspects::aspects::ordinary::{TrackedOrdinaryAspects, TrackedOrdinaryView};
use crate::meta::file_aspects::aspects::symlink::TrackedSymlinkAspects;
use crate::meta::file_aspects::attributes::{Attributes, AttributesView};
use crate::meta::file_aspects::enums::{TrackedFileAspects, TrackedView};
use crate::meta::index::model::{
    folded,
    lemma_folded_distinct,
    lemma_path_entries_of_unicode_entries,
    path_entries,
    unicode_entries,
    Conversion,
    UnicodeEntries,
    UnicodePathIndex,
};
use crate::meta::index::{index_wf, lemma_same_map_same_entries, lemma_wf_distinct, Entries, Index};
use crate::order::equal_bytes;
use crate::text::{same_text, text_bytes};
use vstd::prelude::*;

verus! {

/// The bytes of the two attributes and the end of the line, followed by
/// `rest`.
pub open spec fn attributes_bytes(attributes: AttributesView, rest: Seq<u8>) -> Seq<u8> {
    item(
        text_bytes(attributes.posix_user),
        SPACE,
        item(text_bytes(attributes.posix_group), NEWLINE, rest),
    )
}

/// The line of one entry, followed by `rest`.
pub open spec fn entry_bytes(entry: (Seq<char>, TrackedView), rest: Seq<u8>) -> Seq<u8> {
    let key = text_bytes(entry.0);
    match entry.1 {
        TrackedView::NonExisting => item(
            text_bytes("non_existing"@),
            SPACE,
            item(key, NEWLINE, rest),
        ),
        TrackedView::Directory(attributes) => item(
            text_bytes("directory"@),
            SPACE,
            item(key, SPACE, attributes_bytes(attributes, rest)),
        ),
        TrackedView::Ordinary(ordinary) => item(
            text_bytes("ordinary"@),
            SPACE,
            item(
                key,
                SPACE,
                item(text_bytes(ordinary.hash), SPACE, attributes_bytes(ordinary.attributes, rest)),
            ),
        ),
        TrackedView::Symlink(linked_to) => item(
            text_bytes("symlink"@),
            SPACE,
            item(key, SPACE, item(text_bytes(linked_to), NEWLINE, rest)),
        ),
    }
}

/// The lines of the entries of an index whose paths are texts.
pub open spec fn unicode_index_bytes(entries: UnicodeEntries) -> Seq<u8>
    decreases entries.len(),
{
    if entries.len() == 0 {
        Seq::empty()
    } else {
        entry_bytes(entries[0], unicode_index_bytes(entries.skip(1)))
    }
}

/// The canonical bytes of an index.
pub open spec fn index_bytes(entries: Entries) -> Seq<u8> {
    unicode_index_bytes(unicode_entries(entries, Conversion::NonLossyBytes))
}

/// Reads two attributes and the end of the line from the front of `bytes`.
pub open spec fn parse_attributes(bytes: Seq<u8>) -> Option<(AttributesView, Seq<u8>)> {
    match split_text(bytes) {
        Some((posix_user, sep, after_user)) => if sep != SPACE {
            None
        } else {
            match split_text(after_user) {
                Some((posix_group, end, rest)) => if end != NEWLINE {
                    None
                } else {
                    Some((AttributesView { posix_user, posix_group }, rest))
                },
                None => None,
            }
        },
        None => None,
    }
}

/// Reads what follows the key on the line of an entry of the kind `tag`.
/// `sep` is the separator that stood behind the key.
pub open spec fn parse_aspects(tag: Seq<char>, sep: u8, bytes: Seq<u8>) -> Option<
    (TrackedView, Seq<u8>),
> {
    if tag == "non_existing"@ {
        if sep == NEWLINE {
            Some((TrackedView::NonExisting, bytes))
        } else {
            None
        }
    } else if sep != SPACE {
        None
    } else if tag == "directory"@ {
        match parse_attributes(bytes) {
            Some((attributes, rest)) => Some((TrackedView::Directory(attributes), rest)),
            None => None,
        }
    } else if tag == "ordinary"@ {
        match split_text(bytes) {
            Some((hash, after, after_hash)) => if after != SPACE {
                None
            } else {
                match parse_attributes(after_hash) {
                    Some((attributes, rest)) => Some(
                        (TrackedView::Ordinary(TrackedOrdinaryView { hash, attributes }), rest),
                    ),
                    None => None,
                }
            },
            None => None,
        }
    } else if tag == "symlink"@ {
        match split_text(bytes) {
            Some((linked_to, end, rest)) => if end != NEWLINE {
                None
            } else {
                Some((TrackedView::Symlink(linked_to), rest))
            },
            None => None,
        }
    } else {
        None
    }
}

/// Reads the line of one entry from the front of `bytes`.
pub open spec fn parse_entry(bytes: Seq<u8>) -> Option<((Seq<char>, TrackedView), Seq<u8>)> {
    match split_text(bytes) {
        Some((tag, after, after_tag)) => if after != SPACE {
            None
        } else {
            match split_text(after_tag) {
                Some((key, sep, after_key)) => match parse_aspects(tag, sep, after_key) {
                    Some((aspects, rest)) => Some(((key, aspects), rest)),
                    None => None,
                },
                None => None,
            }
        },
        None => None,
    }
}

/// Reads lines of entries until `bytes` is used up. A line takes up bytes, so
/// that what follows it is shorter; the test for that is there to show that
/// the reading comes to an end.
pub open spec fn parse_entries(bytes: Seq<u8>) -> Option<UnicodeEntries>
    decreases bytes.len(),
{
    if bytes.len() == 0 {
        Some(Seq::empty())
    } else {
        match parse_entry(bytes) {
            Some((entry, rest)) => if rest.len() < bytes.len() {
                match parse_entries(rest) {
                    Some(more) => Some(seq![entry] + more),
                    None => None,
                }
            } else {
                None
            },
            None => None,
        }
    }
}

/// The four kinds have four different names.
proof fn lemma_tags_differ()
    ensures
        "non_existing"@ != "directory"@,
        "non_existing"@ != "ordinary"@,
        "non_existing"@ != "symlink"@,
        "directory"@ != "ordinary"@,
        "directory"@ != "symlink"@,
        "ordinary"@ != "symlink"@,
{
    reveal_strlit("non_existing");
    reveal_strlit("directory");
    reveal_strlit("ordinary");
    reveal_strlit("symlink");
    assert("non_existing"@.len() == 12);
    assert("directory"@.len() == 9);
    assert("ordinary"@.len() == 8);
    assert("symlink"@.len() == 7);
}

/// Attributes that were written are read back as they were.
proof fn lemma_parse_attributes(attributes: AttributesView, rest: Seq<u8>)
    ensures
        parse_attributes(attributes_bytes(attributes, rest)) == Some((attributes, rest)),
{
    let after_user = item(text_bytes(attributes.posix_group), NEWLINE, rest);
    lemma_split_text_of_item(attributes.posix_user, SPACE, after_user);
    lemma_split_text_of_item(attributes.posix_group, NEWLINE, rest);
}

/// The line of an entry is read back as the entry, and what follows the
/// line is left over.
pub proof fn lemma_parse_entry(entry: (Seq<char>, TrackedView), rest: Seq<u8>)
    ensures
        parse_entry(entry_bytes(entry, rest)) == Some((entry, rest)),
        entry_bytes(entry, rest).len() > rest.len(),
{
    lemma_tags_differ();
    match entry.1 {
        TrackedView::NonExisting => {
            let after_tag = item(text_bytes(entry.0), NEWLINE, rest);
            lemma_split_text_of_item("non_existing"@, SPACE, after_tag);
            lemma_split_text_of_item(entry.0, NEWLINE, rest);
        },
        TrackedView::Directory(attributes) => {
            let after_key = attributes_bytes(attributes, rest);
            let after_tag = item(text_bytes(entry.0), SPACE, after_key);
            lemma_split_text_of_item("directory"@, SPACE, after_tag);
            lemma_split_text_of_item(entry.0, SPACE, after_key);
            lemma_parse_attributes(attributes, rest);
        },
        TrackedView::Ordinary(ordinary) => {
            let after_hash = attributes_bytes(ordinary.attributes, rest);
            let after_key = item(text_bytes(ordinary.hash), SPACE, after_hash);
            let after_tag = item(text_bytes(entry.0), SPACE, after_key);
            lemma_split_text_of_item("ordinary"@, SPACE, after_tag);
            lemma_split_text_of_item(entry.0, SPACE, after_key);
            lemma_split_text_of_item(ordinary.hash, SPACE, after_hash);
            lemma_parse_attributes(ordinary.attributes, rest);
        },
        TrackedView::Symlink(linked_to) => {
            let after_key = item(text_bytes(linked_to), NEWLINE, rest);
            let after_tag = item(text_bytes(entry.0), SPACE, after_key);
            lemma_split_text_of_item("symlink"@, SPACE, after_tag);
            lemma_split_text_of_item(entry.0, SPACE, after_key);
            lemma_split_text_of_item(linked_to, NEWLINE, rest);
        },
    }
}

/// The lines of an index are read back as its entries.
pub proof fn lemma_parse_entries(entries: UnicodeEntries)
    ensures
        parse_entries(unicode_index_bytes(entries)) == Some(entries),
    decreases entries.len(),
{
    if entries.len() == 0 {
        assert(entries =~= UnicodeEntries::empty());
    } else {
        let rest = unicode_index_bytes(entries.skip(1));
        lemma_parse_entry(entries[0], rest);
        lemma_parse_entries(entries.skip(1));
        assert(seq![entries[0]] + entries.skip(1) =~= entries);
    }
}

/// The line of an entry followed by `rest` is the line and then `rest`.
pub proof fn lemma_entry_bytes_then(entry: (Seq<char>, TrackedView), rest: Seq<u8>)
    ensures
        entry_bytes(entry, rest) == entry_bytes(entry, Seq::empty()) + rest,
{
    assert(entry_bytes(entry, rest) =~= entry_bytes(entry, Seq::empty()) + rest);
}

/// Appends the two attributes and the end of the line to `out`.
fn write_attributes(out: &mut Vec<u8>, attributes: &Attributes)
    ensures
        final(out)@ == old(out)@ + attributes_bytes(attributes@, Seq::empty()),
{
    let ghost before = out@;
    push_text_item(out, attributes.posix_user.as_str(), SPACE);
    push_text_item(out, attributes.posix_group.as_str(), NEWLINE);
    proof {
        assert(out@ =~= before + attributes_bytes(attributes@, Seq::empty()));
    }
}

/// Appends the line of one entry to `out`.
fn write_entry(out: &mut Vec<u8>, key: &str, aspects: &TrackedFileAspects)
    ensures
        final(out)@ == old(out)@ + entry_bytes((key@, aspects@), Seq::empty()),
{
    let ghost before = out@;
    match aspects {
        TrackedFileAspects::NonExisting(_) => {
            push_text_item(out, "non_existing", SPACE);
            push_text_item(out, key, NEWLINE);
        },
        TrackedFileAspects::Directory(directory) => {
            push_text_item(out, "directory", SPACE);
            push_text_item(out, key, SPACE);
            write_attributes(out, &directory.attributes);
        },
        TrackedFileAspects::Ordinary(ordinary) => {
            push_text_item(out, "ordinary", SPACE);
            push_text_item(out, key, SPACE);
            push_text_item(out, ordinary.hash.as_str(), SPACE);
            write_attributes(out, &ordinary.attributes);
        },
        TrackedFileAspects::Symlink(symlink) => {
            push_text_item(out, "symlink", SPACE);
            push_text_item(out, key, SPACE);
            push_text_item(out, symlink.linked_to.as_str(), NEWLINE);
        },
    }
    proof {
        assert(out@ =~= before + entry_bytes((key@, aspects@), Seq::empty()));
    }
}

/// Reads two attributes and the end of the line at `start`.
fn read_attributes(bytes: &[u8], start: usize) -> (r: Option<(Attributes, usize)>)
    requires
        start <= bytes.len(),
    ensures
        match r {
            Some((attributes, next)) => start < next <= bytes@.len() && parse_attributes(
                bytes@.skip(start as int),
            ) == Some((attributes@, bytes@.skip(next as int))),
            None => parse_attributes(bytes@.skip(start as int)) is None,
        },
{
    match take_text(bytes, start) {
        Some((posix_user, sep, after_user)) => {
            if sep != SPACE {
                return None;
            }
            match take_text(bytes, after_user) {
                Some((posix_group, end, next)) => {
                    if end != NEWLINE {
                        return None;
                    }
                    Some((Attributes { posix_user, posix_group }, next))
                },
                None => None,
            }
        },
        None => None,
    }
}

/// Reads what follows the key on the line of an entry of the kind `tag`.
fn read_aspects(tag: &str, sep: u8, bytes: &[u8], start: usize) -> (r: Option<
    (TrackedFileAspects, usize),
>)
    requires
        start <= bytes.len(),
    ensures
        match r {
            Some((aspects, next)) => start <= next <= bytes@.len() && parse_aspects(
                tag@,
                sep,
                bytes@.skip(start as int),
            ) == Some((aspects@, bytes@.skip(next as int))),
            None => parse_aspects(tag@, sep, bytes@.skip(start as int)) is None,
        },
{
    if same_text(tag, "non_existing") {
        if sep == NEWLINE {
            Some((TrackedFileAspects::NonExisting(TrackedNonExistingAspects::new()), start))
        } else {
            None
        }
    } else if sep != SPACE {
        None
    } else if same_text(tag, "directory") {
        match read_attributes(bytes, start) {
            Some((attributes, next)) => Some(
                (TrackedFileAspects::Directory(TrackedDirectoryAspects::new(attributes)), next),
            ),
            None => None,
        }
    } else if same_text(tag, "ordinary") {
        match take_text(bytes, start) {
            Some((hash, after, after_hash)) => {
                if after != SPACE {
                    return None;
                }
                match read_attributes(bytes, after_hash) {
                    Some((attributes, next)) => Some(
                        (
                            TrackedFileAspects::Ordinary(
                                TrackedOrdinaryAspects::new(hash.as_str(), attributes),
                            ),
                            next,
                        ),
                    ),
                    None => None,
                }
            },
            None => None,
        }
    } else if same_text(tag, "symlink") {
        match take_text(bytes, start) {
            Some((linked_to, end, next)) => {
                if end != NEWLINE {
                    return None;
                }
                Some((TrackedFileAspects::Symlink(TrackedSymlinkAspects::new(linked_to)), next))
            },
            None => None,
        }
    } else {
        None
    }
}

/// Reads the line of one entry at `start`.
fn read_entry(bytes: &[u8], start: usize) -> (r: Option<((String, TrackedFileAspects), usize)>)
    requires
        start <= bytes.len(),
    ensures
        match r {
            Some((entry, next)) => start < next <= bytes@.len() && parse_entry(
                bytes@.skip(start as int),
            ) == Some(((entry.0@, entry.1@), bytes@.skip(next as int))),
            None => parse_entry(bytes@.skip(start as int)) is None,
        },
{
    match take_text(bytes, start) {
        Some((tag, after, after_tag)) => {
            if after != SPACE {
                return None;
            }
            match take_text(bytes, after_tag) {
                Some((key, sep, after_key)) => {
                    match read_aspects(tag.as_str(), sep, bytes, after_key) {
                        Some((aspects, next)) => Some(((key, aspects), next)),
                        None => None,
                    }
                },
                None => None,
            }
        },
        None => None,
    }
}

/// Puts `entry` in front of the entries that were read behind it.
pub open spec fn prepend(front: UnicodeEntries, more: Option<UnicodeEntries>) -> Option<
    UnicodeEntries,
> {
    match more {
        Some(entries) => Some(front + entries),
        None => None,
    }
}

impl UnicodePathIndex {
    /// The lines of the entries.
    pub fn to_bytes(&self) -> (r: Vec<u8>)
        ensures
            r@ == unicode_index_bytes(self@),
    {
        let mut out: Vec<u8> = Vec::new();
        let mut i: usize = 0;
        proof {
            assert(self@.skip(0) =~= self@);
            assert(out@ + unicode_index_bytes(self@) =~= unicode_index_bytes(self@));
        }
        while i < self.files.len()
            invariant
                i <= self.files.len(),
                out@ + unicode_index_bytes(self@.skip(i as int)) == unicode_index_bytes(self@),
            decreases self.files.len() - i,
        {
            let ghost before = out@;
            write_entry(&mut out, self.files[i].0.as_str(), &self.files[i].1);
            proof {
                let here = self@.skip(i as int);
                let rest = unicode_index_bytes(self@.skip(i + 1));
                assert(here.skip(1) =~= self@.skip(i + 1));
                assert(here[0] == self@[i as int]);
                lemma_entry_bytes_then(here[0], rest);
                assert(out@ + rest =~= before + unicode_index_bytes(here));
            }
            i += 1;
        }
        proof {
            assert(unicode_index_bytes(self@.skip(i as int)) =~= Seq::<u8>::empty());
            assert(out@ + Seq::<u8>::empty() =~= out@);
        }
        out
    }

    /// The entries whose lines `bytes` holds. `None` where `bytes` is not
    /// made of such lines.
    pub fn from_bytes(bytes: &[u8]) -> (r: Option<Self>)
        ensures
            match r {
                Some(unicode) => parse_entries(bytes@) == Some(unicode@),
                None => parse_entries(bytes@) is None,
            },
    {
        let mut files: Vec<(String, TrackedFileAspects)> = Vec::new();
        let mut pos: usize = 0;
        let ghost view_of = |e: (String, TrackedFileAspects)| (e.0@, e.1@);
        proof {
            assert(bytes@.skip(0) =~= bytes@);
            assert(files@.map_values(view_of) + parse_entries(bytes@).unwrap()
                =~= parse_entries(bytes@).unwrap());
        }
        while pos < bytes.len()
            invariant
                pos <= bytes.len(),
                view_of == |e: (String, TrackedFileAspects)| (e.0@, e.1@),
                parse_entries(bytes@) == prepend(
                    files@.map_values(view_of),
                    parse_entries(bytes@.skip(pos as int)),
                ),
            decreases bytes.len() - pos,
        {
            let ghost here = bytes@.skip(pos as int);
            let ghost so_far = files@.map_values(view_of);
            match read_entry(bytes, pos) {
                Some((entry, next)) => {
                    let ghost entry_view = (entry.0@, entry.1@);
                    files.push(entry);
                    proof {
                        let rest = bytes@.skip(next as int);
                        assert(files@.map_values(view_of) =~= so_far + seq![entry_view]);
                        match parse_entries(rest) {
                            Some(more) => {
                                assert(so_far + (seq![entry_view] + more) =~= files@.map_values(
                                    view_of,
                                ) + more);
                            },
                            None => {},
                        }
                    }
                    pos = next;
                },
                None => {
                    return None;
                },
            }
        }
        let unicode = UnicodePathIndex { files };
        proof {
            assert(bytes@.skip(pos as int).len() == 0);
            assert(unicode@ + UnicodeEntries::empty() =~= unicode@);
        }
        Some(unicode)
    }
}

impl Blob {
    /// The canonical bytes of `index`.
    pub fn try_from_index(index: Index) -> (r: FcResult<Blob>)
        ensures
            r matches Ok(blob) && blob@ == index_bytes(index@),
    {
        match UnicodePathIndex::from_index(index, Conversion::NonLossyBytes) {
            Ok(unicode) => Ok(Blob::from_vec(unicode.to_bytes())),
            Err(e) => Err(e),
        }
    }
}

impl UnicodePathIndex {
    /// The entries whose lines `blob` holds. It fails, with the kind
    /// `MalformedDocument`, where `blob` is not made of such lines.
    pub fn try_from_blob(blob: Blob) -> (r: FcResult<Self>)
        ensures
            match r {
                Ok(unicode) => parse_entries(blob@) == Some(unicode@),
                Err(e) => parse_entries(blob@) is None && e.kind == ErrorKind::MalformedDocument
                    && e.wrapped is None,
            },
    {
        match UnicodePathIndex::from_bytes(blob.as_slice()) {
            Some(unicode) => Ok(unicode),
            None => Err(
                Error::plain(ErrorKind::MalformedDocument, "Reading the lines of an index."),
            ),
        }
    }
}

/// If `bytes` is the canonical form of a well-formed index, reading its
/// lines gives the entries of that index with their keys.
proof fn lemma_canonical_index_is_read(entries: Entries, bytes: Seq<u8>)
    requires
        index_wf(entries),
        index_bytes(entries) == bytes,
    ensures
        parse_entries(bytes) == Some(unicode_entries(entries, Conversion::NonLossyBytes)),
        folded(
            path_entries(
                unicode_entries(entries, Conversion::NonLossyBytes),
                Conversion::NonLossyBytes,
            ),
        ) == as_map(entries),
{
    lemma_parse_entries(unicode_entries(entries, Conversion::NonLossyBytes));
    lemma_path_entries_of_unicode_entries(entries);
    lemma_wf_distinct(entries);
    lemma_folded_distinct(entries);
}

/// The entries of the index whose canonical bytes `bytes` are, if they are
/// those of any.
pub open spec fn decode_index(bytes: Seq<u8>) -> Option<Entries> {
    if exists|entries: Entries| index_wf(entries) && #[trigger] index_bytes(entries) == bytes {
        Some(choose|entries: Entries| index_wf(entries) && #[trigger] index_bytes(entries) == bytes)
    } else {
        None
    }
}

/// Two well-formed indexes with the same canonical bytes hold the same
/// entries.
pub proof fn lemma_index_bytes_injective(a: Entries, b: Entries)
    requires
        index_wf(a),
        index_wf(b),
        index_bytes(a) == index_bytes(b),
    ensures
        a == b,
{
    lemma_canonical_index_is_read(a, index_bytes(a));
    lemma_canonical_index_is_read(b, index_bytes(a));
    lemma_same_map_same_entries(a, b);
}

/// The canonical bytes of an index are read back as that index.
pub proof fn lemma_decode_index(entries: Entries)
    requires
        index_wf(entries),
    ensures
        decode_index(index_bytes(entries)) == Some(entries),
{
    let bytes = index_bytes(entries);
    let found = choose|e: Entries| index_wf(e) && #[trigger] index_bytes(e) == bytes;
    lemma_index_bytes_injective(found, entries);
}

impl Index {
    /// The index whose canonical bytes `blob` holds. It fails, with the kind
    /// `MalformedDocument`, where `blob` is not the canonical form of any
    /// index.
    pub fn try_from_blob(blob: Blob) -> (r: FcResult<Self>)
        ensures
            match r {
                Ok(index) => index.wf() && index_bytes(index@) == blob@,
                Err(e) => {
                    &&& forall|entries: Entries|
                        index_wf(entries) ==> #[trigger] index_bytes(entries) != blob@
                    &&& e.kind == ErrorKind::MalformedDocument
                    &&& e.wrapped is None
                },
            },
    {
        let ghost bytes = blob@;
        let unicode = match UnicodePathIndex::from_bytes(blob.as_slice()) {
            Some(unicode) => unicode,
            None => {
                proof {
                    assert forall|entries: Entries| index_wf(entries) implies #[trigger] index_bytes(
                        entries,
                    ) != bytes by {
                        if index_bytes(entries) == bytes {
                            lemma_canonical_index_is_read(entries, bytes);
                        }
                    }
                }
                return Err(
                    Error::plain(ErrorKind::MalformedDocument, "Reading the lines of an index."),
                );
            },
        };
        let ghost read = unicode@;
        let index = match Index::from_unicode_path_index(unicode, Conversion::NonLossyBytes) {
            Ok(index) => index,
            Err(e) => {
                proof {
                    assert forall|entries: Entries| index_wf(entries) implies #[trigger] index_bytes(
                        entries,
                    ) != bytes by {
                        if index_bytes(entries) == bytes {
                            lemma_canonical_index_is_read(entries, bytes);
                            lemma_path_entries_of_unicode_entries(entries);
                        }
                    }
                }
                return Err(e);
            },
        };
        let again = match Blob::try_from_index(index.clone()) {
            Ok(again) => again,
            Err(e) => {
                return Err(e);
            },
        };
        if equal_bytes(again.as_slice(), blob.as_slice()) {
            Ok(index)
        } else {
            proof {
                assert forall|entries: Entries| index_wf(entries) implies #[trigger] index_bytes(
                    entries,
                ) != bytes by {
                    if index_bytes(entries) == bytes {
                        lemma_canonical_index_is_read(entries, bytes);
                        lemma_same_map_same_entries(index@, entries);
                    }
                }
            }
            Err(
                Error::plain(
                    ErrorKind::MalformedDocument,
                    "Holding the lines of an index against its canonical form.",
                ),
            )
        }
    }
}

} // verus!
