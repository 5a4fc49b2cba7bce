use crate::assoc::{
    as_map,
    distinct_keys,
    has_key,
    key_at,
    lemma_empty,
    lemma_insert_at,
    position_of,
};
use crate::codec::{
    escape,
    escaped,
    lemma_escape_is_ascii,
    lemma_unescape_of_escape,
    unescape,
    unescaped,
};
use crate::error::{Error, ErrorKind, FcResult};
use crate::meta::file_aspects::enums::{TrackedFileAspects, TrackedView};
use crate::meta::index::{Entries, Index};
use crate::text::{
    bytes_of_text,
    lemma_ascii_is_text,
    lossy_text,
    lossy_text_of_bytes,
    text_bytes,
    text_of_ascii,
};
use vstd::prelude::*;
use vstd::utf8::{decode_utf8, decode_utf8_encode_utf8, valid_utf8};

verus! {

/// How the path of an entry is turned into a text and back.
#[derive(Clone, Copy, Debug, PartialEq, Eq, Structural)]
pub enum Conversion {
    /// The path as a reader would like to see it. What is not UTF-8 in it is
    /// lost: this is for showing an index, never for storing one.
    LossyGraphemes,
    /// The path in its escaped form, which keeps every byte.
    NonLossyBytes,
}

/// The entries of an index whose paths are texts.
pub type UnicodeEntries = Seq<(Seq<char>, TrackedView)>;

/// An index whose paths are texts: the form in which an index is written
/// down. It is made for writing and reading an index, and for nothing else.
#[derive(Debug, PartialEq, Eq)]
pub struct UnicodePathIndex {
    pub files: Vec<(String, TrackedFileAspects)>,
}

impl View for UnicodePathIndex {
    type V = UnicodeEntries;

    open spec fn view(&self) -> UnicodeEntries {
        self.files@.map_values(|e: (String, TrackedFileAspects)| (e.0@, e.1@))
    }
}

/// The text that stands for `path`.
pub open spec fn path_key(conversion: Conversion, path: Seq<u8>) -> Seq<char> {
    match conversion {
        Conversion::LossyGraphemes => lossy_text(path),
        Conversion::NonLossyBytes => decode_utf8(escape(path)),
    }
}

/// The path that `key` stands for, if it stands for one.
pub open spec fn key_path(conversion: Conversion, key: Seq<char>) -> Option<Seq<u8>> {
    match conversion {
        Conversion::LossyGraphemes => Some(text_bytes(key)),
        Conversion::NonLossyBytes => unescape(text_bytes(key)),
    }
}

/// The entries of an index with each path as a text.
pub open spec fn unicode_entries(entries: Entries, conversion: Conversion) -> UnicodeEntries {
    entries.map_values(|e: (Seq<u8>, TrackedView)| (path_key(conversion, e.0), e.1))
}

/// Every key stands for a path.
pub open spec fn all_keys_are_paths(entries: UnicodeEntries, conversion: Conversion) -> bool {
    forall|i: int| 0 <= i < entries.len() ==> key_path(conversion, #[trigger] entries[i].0) is Some
}

/// The entries with each key as the path it stands for.
pub open spec fn path_entries(entries: UnicodeEntries, conversion: Conversion) -> Entries {
    entries.map_values(|e: (Seq<char>, TrackedView)| (key_path(conversion, e.0).unwrap(), e.1))
}

/// The map that comes of putting the entries into an empty map one after
/// the other: where a path occurs more than once, its last entry stays.
pub open spec fn folded(entries: Entries) -> Map<Seq<u8>, TrackedView>
    decreases entries.len(),
{
    if entries.len() == 0 {
        Map::empty()
    } else {
        folded(entries.drop_last()).insert(entries.last().0, entries.last().1)
    }
}

/// The escaped form of a path is a text.
pub proof fn lemma_escape_is_text(path: Seq<u8>)
    ensures
        valid_utf8(escape(path)),
        text_bytes(path_key(Conversion::NonLossyBytes, path)) == escape(path),
{
    assert forall|i: int| 0 <= i < escape(path).len() implies escape(path)[i] <= 0x7f by {
        lemma_escape_is_ascii(path, i);
    }
    lemma_ascii_is_text(escape(path));
    decode_utf8_encode_utf8(escape(path));
}

/// The text that stands for a path without loss stands for that path and
/// for no other.
pub proof fn lemma_key_of_path(path: Seq<u8>)
    ensures
        key_path(Conversion::NonLossyBytes, path_key(Conversion::NonLossyBytes, path)) == Some(
            path,
        ),
{
    lemma_escape_is_text(path);
    lemma_unescape_of_escape(path);
}

/// Where no path occurs twice, putting the entries into a map one after the
/// other gives the map of the entries.
pub proof fn lemma_folded_distinct(entries: Entries)
    requires
        distinct_keys(entries),
    ensures
        folded(entries) == as_map(entries),
    decreases entries.len(),
{
    if entries.len() == 0 {
        lemma_empty::<Seq<u8>, TrackedView>();
        assert(entries =~= Entries::empty());
    } else {
        let front = entries.drop_last();
        let last = entries.last();
        assert forall|i: int, j: int| 0 <= i < j < front.len() implies front[i].0
            != front[j].0 by {
            assert(entries[i].0 != entries[j].0);
        }
        lemma_folded_distinct(front);
        if has_key(front, last.0) {
            let p = position_of(front, last.0);
            assert(key_at(front, last.0, p));
            assert(entries[p].0 != entries[entries.len() - 1].0);
        }
        lemma_insert_at(front, front.len() as int, last.0, last.1);
        assert(front.insert(front.len() as int, last) =~= entries);
    }
}

/// Written without loss and read back, the entries of an index are what
/// they were.
pub proof fn lemma_path_entries_of_unicode_entries(entries: Entries)
    ensures
        all_keys_are_paths(
            unicode_entries(entries, Conversion::NonLossyBytes),
            Conversion::NonLossyBytes,
        ),
        path_entries(
            unicode_entries(entries, Conversion::NonLossyBytes),
            Conversion::NonLossyBytes,
        ) == entries,
{
    let c = Conversion::NonLossyBytes;
    let u = unicode_entries(entries, c);
    assert forall|i: int| 0 <= i < u.len() implies key_path(c, #[trigger] u[i].0) == Some(
        entries[i].0,
    ) by {
        lemma_key_of_path(entries[i].0);
    }
    assert(path_entries(u, c) =~= entries);
}

/// The text that stands for `path`.
pub fn key_of_path(conversion: Conversion, path: &[u8]) -> (r: String)
    ensures
        r@ == path_key(conversion, path@),
{
    match conversion {
        Conversion::LossyGraphemes => lossy_text_of_bytes(path),
        Conversion::NonLossyBytes => {
            let bytes = escaped(path);
            proof {
                assert forall|i: int| 0 <= i < bytes@.len() implies bytes@[i] <= 0x7f by {
                    lemma_escape_is_ascii(path@, i);
                }
                lemma_ascii_is_text(bytes@);
            }
            text_of_ascii(bytes)
        },
    }
}

/// The path that `key` stands for.
pub fn path_of_key(conversion: Conversion, key: &str) -> (r: Option<Vec<u8>>)
    ensures
        match r {
            Some(path) => key_path(conversion, key@) == Some(path@),
            None => key_path(conversion, key@) is None,
        },
{
    match conversion {
        Conversion::LossyGraphemes => Some(bytes_of_text(key)),
        Conversion::NonLossyBytes => unescaped(bytes_of_text(key).as_slice()),
    }
}

impl UnicodePathIndex {
    /// The entries of `index` with each path as a text, in the order of the
    /// index.
    pub fn from_index(index: Index, conversion_type: Conversion) -> (r: FcResult<Self>)
        ensures
            r matches Ok(unicode) && unicode@ == unicode_entries(index@, conversion_type),
    {
        let mut files: Vec<(String, TrackedFileAspects)> = Vec::new();
        let mut i: usize = 0;
        while i < index.len()
            invariant
                i <= index@.len(),
                files@.len() == i,
                forall|j: int|
                    0 <= j < i ==> files@[j].0@ == path_key(conversion_type, index@[j].0)
                        && files@[j].1@ == index@[j].1,
            decreases index@.len() - i,
        {
            files.push((key_of_path(conversion_type, index.path_at(i)), index.aspects_at(i).clone()));
            i += 1;
        }
        let unicode = UnicodePathIndex { files };
        proof {
            assert(unicode@ =~= unicode_entries(index@, conversion_type));
        }
        Ok(unicode)
    }
}

impl Index {
    /// The index that maps the path of each key to the aspects that stand
    /// with the key. It fails, with the kind `MalformedDocument`, where a
    /// key stands for no path.
    pub fn from_unicode_path_index(
        unicode_path_index: UnicodePathIndex,
        conversion_type: Conversion,
    ) -> (r: FcResult<Self>)
        ensures
            match r {
                Ok(index) => {
                    &&& index.wf()
                    &&& all_keys_are_paths(unicode_path_index@, conversion_type)
                    &&& as_map(index@) == folded(
                        path_entries(unicode_path_index@, conversion_type),
                    )
                },
                Err(e) => {
                    &&& !all_keys_are_paths(unicode_path_index@, conversion_type)
                    &&& e.kind == ErrorKind::MalformedDocument
                    &&& e.wrapped is None
                },
            },
    {
        let ghost u = unicode_path_index@;
        let ghost paths = path_entries(u, conversion_type);
        let mut index = Index::new();
        proof {
            lemma_empty::<Seq<u8>, TrackedView>();
            assert(paths.take(0) =~= Entries::empty());
        }
        let mut i: usize = 0;
        while i < unicode_path_index.files.len()
            invariant
                i <= unicode_path_index.files.len(),
                u == unicode_path_index@,
                paths == path_entries(u, conversion_type),
                index.wf(),
                forall|j: int| 0 <= j < i ==> key_path(conversion_type, #[trigger] u[j].0) is Some,
                as_map(index@) == folded(paths.take(i as int)),
            decreases unicode_path_index.files.len() - i,
        {
            let entry = &unicode_path_index.files[i];
            match path_of_key(conversion_type, entry.0.as_str()) {
                Some(path) => {
                    index.put_file(path.as_slice(), &entry.1);
                    proof {
                        let next = paths.take(i + 1);
                        assert(next.drop_last() =~= paths.take(i as int));
                        assert(next.last() == paths[i as int]);
                    }
                },
                None => {
                    proof {
                        assert(key_path(conversion_type, u[i as int].0) is None);
                    }
                    return Err(
                        Error::plain(
                            ErrorKind::MalformedDocument,
                            "Reading the path that a key of an index stands for.",
                        ),
                    );
                },
            }
            i += 1;
        }
        proof {
            assert(paths.take(i as int) =~= paths);
        }
        Ok(index)
    }
}

} // verus!
