use crate::error::FcResult;
use crate::files::blob::BlobProvider;
use crate::meta::blob::model::Blob;
use crate::text::{ascii_text, text_of_ascii};
use vstd::prelude::*;

verus! {

/// The BLAKE3 hash of `input`: the 32 bytes that `blake3::hash` returns.
pub uninterp spec fn blake3_digest(input: Seq<u8>) -> Seq<u8>;

/// The lower-case hexadecimal digit for a value below sixteen.
pub open spec fn lower_hex_digit(n: u8) -> u8
    recommends
        n < 16,
{
    if n < 10 {
        (0x30 + n) as u8
    } else {
        (0x57 + n) as u8
    }
}

/// The two lower-case hexadecimal digits of each byte, in ASCII.
pub open spec fn lower_hex(bytes: Seq<u8>) -> Seq<u8>
    decreases bytes.len(),
{
    if bytes.len() == 0 {
        Seq::empty()
    } else {
        lower_hex(bytes.drop_last()) + seq![
            lower_hex_digit(bytes.last() / 16),
            lower_hex_digit(bytes.last() % 16),
        ]
    }
}

/// The content hash of an object whose canonical bytes are `bytes`: its
/// BLAKE3 hash in lower-case hexadecimal. It is the key under which the
/// object is stored.
pub open spec fn content_hash(bytes: Seq<u8>) -> Seq<char> {
    ascii_text(lower_hex(blake3_digest(bytes)))
}

/// The hexadecimal form has two digits for each byte, and nothing but
/// digits.
pub proof fn lemma_lower_hex(bytes: Seq<u8>)
    ensures
        lower_hex(bytes).len() == 2 * bytes.len(),
        forall|i: int|
            0 <= i < lower_hex(bytes).len() ==> (0x30 <= #[trigger] lower_hex(bytes)[i] <= 0x39
                || 0x61 <= lower_hex(bytes)[i] <= 0x66),
    decreases bytes.len(),
{
    if bytes.len() > 0 {
        lemma_lower_hex(bytes.drop_last());
    }
}

/// `blake3::hash` of the blake3 crate: the hash of `input`, as its 32
/// bytes. The result depends on the bytes of `input` alone.
#[verifier::external_body]
pub(crate) fn blake3_digest_of(input: &[u8]) -> (digest: Vec<u8>)
    ensures
        digest@ == blake3_digest(input@),
        digest@.len() == 32,
{
    blake3::hash(input).as_bytes().to_vec()
}

/// The lower-case hexadecimal digit for `n`.
fn lower_hex_digit_of(n: u8) -> (d: u8)
    requires
        n < 16,
    ensures
        d == lower_hex_digit(n),
{
    if n < 10 {
        0x30 + n
    } else {
        0x57 + n
    }
}

/// The content hash of `bytes`: 64 lower-case hexadecimal digits.
pub fn hash_bytes(bytes: &[u8]) -> (hash: String)
    ensures
        hash@ == content_hash(bytes@),
        hash@.len() == 64,
{
    let digest = blake3_digest_of(bytes);
    let mut hex: Vec<u8> = Vec::new();
    let mut i: usize = 0;
    proof {
        assert(digest@.take(0) =~= Seq::<u8>::empty());
    }
    while i < digest.len()
        invariant
            i <= digest.len(),
            hex@ == lower_hex(digest@.take(i as int)),
        decreases digest.len() - i,
    {
        proof {
            let next = digest@.take(i + 1);
            assert(next.drop_last() =~= digest@.take(i as int));
            assert(next.last() == digest@[i as int]);
        }
        hex.push(lower_hex_digit_of(digest[i] / 16));
        hex.push(lower_hex_digit_of(digest[i] % 16));
        i += 1;
    }
    proof {
        assert(digest@.take(i as int) =~= digest@);
        lemma_lower_hex(digest@);
    }
    text_of_ascii(hex)
}

/// An object that has a content hash: the hash of the blob it provides.
///
/// There is one way to the hash of an object, and it leads through its blob.
pub trait Hashable: BlobProvider {
    /// The content hash of the object.
    fn get_hash(&self) -> (r: FcResult<String>)
        ensures
            r matches Ok(hash) ==> hash@ == content_hash(self.blob()),
            self.available() ==> r is Ok,
    ;
}

/// The content hash of a blob that a provider was asked for: the hash of
/// the blob where the provider handed it out, the provider's error where it
/// did not.
pub fn hash_of_cloned(cloned: FcResult<Blob>) -> (r: FcResult<String>)
    ensures
        match cloned {
            Ok(blob) => r matches Ok(hash) && hash@ == content_hash(blob@),
            Err(e) => r matches Err(error) && error == e,
        },
{
    match cloned {
        Ok(blob) => Ok(hash_bytes(blob.as_slice())),
        Err(e) => Err(e),
    }
}

/// The content hash of what `provider` provides. It fails where the provider
/// fails to hand out its blob, with the provider's error.
pub fn hash_of_provider<P: BlobProvider>(provider: &P) -> (r: FcResult<String>)
    ensures
        r matches Ok(hash) ==> hash@ == content_hash(provider.blob()),
        provider.available() ==> r is Ok,
{
    hash_of_cloned(provider.clone_blob())
}

} // verus!
