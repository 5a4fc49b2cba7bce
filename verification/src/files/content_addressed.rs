//! Storing bytes under their content hash.
//!
//! An object that is stored under its hash is never written a second time:
//! what a name holds once, it holds for good.

use crate::error::{Error, ErrorKind, FcResult};
use crate::files::hashable::{content_hash, hash_bytes};
use crate::opaque_collection_handler::OpaqueCollectionHandler;
use vstd::prelude::*;

verus! {

/// The objects of a collection, each under its name.
pub type Objects = Map<Seq<char>, Seq<u8>>;

/// What `stored` becomes when the object with the bytes `bytes` is put into
/// it: the object is added under its hash, unless that name is taken.
pub open spec fn with_object(stored: Objects, bytes: Seq<u8>) -> Objects {
    if stored.contains_key(content_hash(bytes)) {
        stored
    } else {
        stored.insert(content_hash(bytes), bytes)
    }
}

/// No other object stands under the hash of `bytes`: the name is free, or
/// it holds `bytes`.
///
/// Two different objects with one hash are possible in principle and not to
/// be expected in practice. A collection that holds one of them cannot take
/// the other.
pub open spec fn no_other_under_hash(stored: Objects, bytes: Seq<u8>) -> bool {
    stored.contains_key(content_hash(bytes)) ==> stored[content_hash(bytes)] == bytes
}

/// Every object stands under the hash of its bytes.
pub open spec fn content_addressed(stored: Objects) -> bool {
    forall|name: Seq<char>| #[trigger]
        stored.contains_key(name) ==> content_hash(stored[name]) == name
}

/// Puts `bytes` into the collection under their content hash and returns
/// the hash. Where the name is taken nothing is written, and that is no
/// error: the object is there already.
///
/// On a reliable backend it succeeds. Whatever happens, no object that the
/// collection held is changed.
pub fn put_bytes<H: OpaqueCollectionHandler>(handler: &mut H, bytes: &[u8]) -> (r: FcResult<String>)
    ensures
        final(handler).reliable() == old(handler).reliable(),
        final(handler).present() == old(handler).present(),
        final(handler).files().remove(content_hash(bytes@)) == old(handler).files().remove(
            content_hash(bytes@),
        ),
        old(handler).files().contains_key(content_hash(bytes@))
            ==> final(handler).files() == old(handler).files(),
        match r {
            Ok(hash) => hash@ == content_hash(bytes@) && final(handler).files() == with_object(
                old(handler).files(),
                bytes@,
            ),
            Err(e) => !old(handler).reliable(),
        },
{
    let hash = hash_bytes(bytes);
    let found = match handler.has_file(hash.as_str()) {
        Ok(found) => found,
        Err(e) => {
            return Err(e);
        },
    };
    if found {
        return Ok(hash);
    }
    let ghost before = handler.files();
    match handler.create_file(hash.as_str()) {
        Ok(_) => {},
        Err(e) => {
            return Err(e);
        },
    }
    let ghost created = handler.files();
    match handler.write_file(hash.as_str(), bytes) {
        Ok(_) => {
            proof {
                assert(handler.files() =~= before.insert(hash@, bytes@));
            }
            Ok(hash)
        },
        Err(error) => {
            proof {
                assert(created.contains_key(hash@));
                assert(handler.files().remove(hash@) =~= before.remove(hash@));
            }
            Err(
                Error::wrapping(
                    ErrorKind::PuttingFileIntoCollectionFailed,
                    "Putting an object into a collection under its hash.",
                    Some(handler.get_debug_info_for_file(hash.as_str())),
                    error,
                ),
            )
        },
    }
}

} // verus!
