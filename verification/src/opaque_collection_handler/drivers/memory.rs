use crate::assoc::{
    as_map,
    distinct_keys,
    has_key,
    key_at,
    lemma_empty,
    lemma_position_unique,
    lemma_put,
    position_of,
    put,
};
use crate::error::{Error, ErrorKind, FcResult};
use crate::opaque_collection_handler::{OpaqueCollectionHandler, PathDoesNotExistInCollectionPayload};
use crate::text::{joined, owned_text, same_text};
use vstd::prelude::*;
use vstd::slice::slice_to_vec;

verus! {

/// A collection that keeps its files in the memory of the process. It never
/// fails for reasons of its own.
#[derive(Debug)]
pub struct MemoryDir {
    label: String,
    created: bool,
    entries: Vec<(String, Vec<u8>)>,
}

/// The position of the file under `name` among `entries`.
fn position(entries: &Vec<(String, Vec<u8>)>, name: &str) -> (r: Option<usize>)
    requires
        distinct_keys(entries@.map_values(|e: (String, Vec<u8>)| (e.0@, e.1@))),
    ensures
        match r {
            Some(i) => key_at(
                entries@.map_values(|e: (String, Vec<u8>)| (e.0@, e.1@)),
                name@,
                i as int,
            ),
            None => !has_key(entries@.map_values(|e: (String, Vec<u8>)| (e.0@, e.1@)), name@),
        },
{
    let ghost pairs = entries@.map_values(|e: (String, Vec<u8>)| (e.0@, e.1@));
    let mut i: usize = 0;
    while i < entries.len()
        invariant
            i <= entries.len(),
            pairs == entries@.map_values(|e: (String, Vec<u8>)| (e.0@, e.1@)),
            forall|j: int| 0 <= j < i ==> pairs[j].0 != name@,
        decreases entries.len() - i,
    {
        if same_text(entries[i].0.as_str(), name) {
            return Some(i);
        }
        i += 1;
    }
    proof {
        if has_key(pairs, name@) {
            assert(key_at(pairs, name@, position_of(pairs, name@)));
        }
    }
    None
}

impl MemoryDir {
    /// The names with their bytes, in the order in which the files were
    /// created.
    pub closed spec fn pairs(&self) -> Seq<(Seq<char>, Seq<u8>)> {
        self.entries@.map_values(|e: (String, Vec<u8>)| (e.0@, e.1@))
    }

    /// No name occurs twice.
    #[verifier::type_invariant]
    closed spec fn inv(&self) -> bool {
        distinct_keys(self.pairs())
    }

    /// The name that the collection goes by in messages.
    pub closed spec fn label(&self) -> Seq<char> {
        self.label@
    }

    /// A collection without files that goes by the name `label`. The
    /// collection itself exists.
    pub fn new(label: &str) -> (r: Self)
        ensures
            r.present(),
            r.label() == label@,
            r.files() == Map::<Seq<char>, Seq<u8>>::empty(),
    {
        let entries: Vec<(String, Vec<u8>)> = Vec::new();
        proof {
            lemma_empty::<Seq<char>, Seq<u8>>();
            assert(entries@.map_values(|e: (String, Vec<u8>)| (e.0@, e.1@)) =~= Seq::<
                (Seq<char>, Seq<u8>),
            >::empty());
        }
        MemoryDir { label: owned_text(label), created: true, entries }
    }

    /// Puts `bytes` under `name`.
    fn store(&mut self, name: &str, bytes: Vec<u8>)
        ensures
            final(self).files() == old(self).files().insert(name@, bytes@),
            final(self).present() == old(self).present(),
            final(self).label() == old(self).label(),
    {
        proof {
            use_type_invariant(&*self);
        }
        let ghost before = self.pairs();
        let mut entries: Vec<(String, Vec<u8>)> = Vec::new();
        proof {
            lemma_empty::<Seq<char>, Seq<u8>>();
            assert(entries@.map_values(|e: (String, Vec<u8>)| (e.0@, e.1@)) =~= Seq::<
                (Seq<char>, Seq<u8>),
            >::empty());
        }
        std::mem::swap(&mut entries, &mut self.entries);
        proof {
            lemma_put(before, name@, bytes@);
        }
        match position(&entries, name) {
            Some(i) => {
                proof {
                    lemma_position_unique(before, name@, i as int);
                }
                entries.set(i, (owned_text(name), bytes));
            },
            None => {
                entries.push((owned_text(name), bytes));
            },
        }
        proof {
            assert(entries@.map_values(|e: (String, Vec<u8>)| (e.0@, e.1@)) =~= put(
                before,
                name@,
                bytes@,
            ));
        }
        self.entries = entries;
    }

    /// The error for a name under which the collection holds no file.
    fn missing(&self, name: &str) -> (e: Error)
        ensures
            e.kind == ErrorKind::PathDoesNotExistInCollection,
            e.wrapped is None,
    {
        Error::with_payload(
            ErrorKind::PathDoesNotExistInCollection,
            "Getting a file from a collection in memory.",
            &PathDoesNotExistInCollectionPayload {
                collection_path: self.label.clone(),
                file_name: owned_text(name),
            },
        )
    }
}

impl OpaqueCollectionHandler for MemoryDir {
    closed spec fn files(&self) -> Map<Seq<char>, Seq<u8>> {
        as_map(self.pairs())
    }

    closed spec fn present(&self) -> bool {
        self.created
    }

    open spec fn reliable(&self) -> bool {
        true
    }

    open spec fn debug_info(&self, name: Seq<char>) -> Seq<char> {
        "memory: "@ + self.label() + "/"@ + name
    }

    fn has_file(&self, name: &str) -> (r: FcResult<bool>) {
        proof {
            use_type_invariant(self);
        }
        Ok(position(&self.entries, name).is_some())
    }

    fn create_file(&mut self, name: &str) -> (r: FcResult<()>) {
        self.store(name, Vec::new());
        Ok(())
    }

    fn read_file(&self, name: &str) -> (r: FcResult<Vec<u8>>) {
        proof {
            use_type_invariant(self);
        }
        match position(&self.entries, name) {
            Some(i) => {
                proof {
                    lemma_position_unique(self.pairs(), name@, i as int);
                }
                Ok(self.entries[i].1.clone())
            },
            None => Err(self.missing(name)),
        }
    }

    fn write_file(&mut self, name: &str, bytes: &[u8]) -> (r: FcResult<()>) {
        proof {
            use_type_invariant(&*self);
        }
        match position(&self.entries, name) {
            Some(_) => {
                self.store(name, slice_to_vec(bytes));
                Ok(())
            },
            None => Err(self.missing(name)),
        }
    }

    fn collection_exists(&self) -> (r: bool) {
        self.created
    }

    fn create_collection(&mut self) -> (r: FcResult<()>) {
        if self.created {
            Err(Error::plain(ErrorKind::Io, "Creating a collection that exists."))
        } else {
            proof {
                use_type_invariant(&*self);
            }
            self.created = true;
            Ok(())
        }
    }

    fn create_collection_ignore_exists(&mut self) -> (r: FcResult<()>) {
        proof {
            use_type_invariant(&*self);
        }
        self.created = true;
        Ok(())
    }

    fn get_debug_info_for_file(&self, name: &str) -> (r: String) {
        joined(joined(joined(owned_text("memory: "), self.label.as_str()), "/"), name)
    }
}

} // verus!
