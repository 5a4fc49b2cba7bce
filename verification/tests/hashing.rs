use filecastalogue::error::FcResult;
use filecastalogue::files::blob::BlobProvider;
use filecastalogue::files::content_addressed::put_bytes;
use filecastalogue::files::hashable::{hash_bytes, hash_of_cloned, hash_of_provider, Hashable};
use filecastalogue::files::index::IndexFile;
use filecastalogue::files::tracked_file::TrackedFile;
use filecastalogue::files::tracked_ordinary_blob::TrackedOrdinaryBlobFile;
use filecastalogue::files::RepoFile;
use filecastalogue::error::{Error, ErrorKind};
use filecastalogue::meta::blob::model::Blob;
use filecastalogue::meta::blob::repo_exported::RepoExportedHeapOrdinaryBlobProvider;
use filecastalogue::opaque_collection_handler::drivers::memory::MemoryDir;
use filecastalogue::opaque_collection_handler::OpaqueCollectionHandler;

const HASH_OF_NOTHING: &str = "af1349b9f5f9a1a6a0404dea36dcc9499bcb25c9adc112b7cc9a93cae41f3262";
const HASH_OF_FOO: &str = "04e0bb39f30b1a3feb89f536c93be15055482df748674b00d26e5a75777702e9";

#[test]
fn the_hash_is_blake3_in_lower_case_hexadecimal() {
    assert_eq!(hash_bytes(b"foo"), HASH_OF_FOO);
    assert_eq!(hash_bytes(b""), HASH_OF_NOTHING);
    assert_eq!(hash_bytes(b"foo"), blake3::hash(b"foo").to_hex().to_string());
    let hash = hash_bytes(&[0xff, 0x00, 0x0a]);
    assert_eq!(hash.len(), 64);
    assert!(hash.chars().all(|c| c.is_ascii_digit() || ('a'..='f').contains(&c)));
}

#[test]
fn the_hash_of_the_same_bytes_is_the_same() {
    assert_eq!(hash_bytes(b"some content"), hash_bytes(b"some content"));
    assert_ne!(hash_bytes(b"some content"), hash_bytes(b"some content."));
}

#[test]
fn the_hash_of_an_object_is_the_hash_of_its_blob() {
    let file = TrackedOrdinaryBlobFile::from_existing(b"foo").unwrap();
    assert_eq!(file.get_hash().unwrap(), HASH_OF_FOO);
    assert_eq!(hash_of_provider(&file).unwrap(), HASH_OF_FOO);
    assert_eq!(file.clone_blob().unwrap().into_vec(), b"foo".to_vec());

    let file = TrackedFile::from_existing(b"foo").unwrap();
    assert_eq!(file.get_hash().unwrap(), HASH_OF_FOO);

    let provider = RepoExportedHeapOrdinaryBlobProvider::new(Blob::from_vec(b"foo".to_vec()));
    assert_eq!(hash_of_provider(&provider).unwrap(), HASH_OF_FOO);

    assert_eq!(IndexFile::new().get_hash().unwrap(), HASH_OF_NOTHING);
}

#[test]
fn the_hash_of_a_blob_that_was_not_handed_out_is_the_error() {
    let cloned: FcResult<Blob> = Err(Error::plain(ErrorKind::Io, "Handing out a blob."));
    assert_eq!(hash_of_cloned(cloned).unwrap_err().kind, ErrorKind::Io);
    assert_eq!(hash_of_cloned(Ok(Blob::from_vec(b"foo".to_vec()))).unwrap(), HASH_OF_FOO);
}

#[test]
fn a_blob_is_its_bytes() {
    let blob = Blob::from_vec(vec![1, 2, 3]);
    assert_eq!(blob.len(), 3);
    assert_eq!(blob.as_slice(), &[1, 2, 3]);
    assert_eq!(blob.clone(), blob);
    assert_eq!(blob.into_vec(), vec![1, 2, 3]);
    assert_eq!(Blob::default().len(), 0);
}

#[test]
fn providers_hand_out_their_blob() {
    let provider = RepoExportedHeapOrdinaryBlobProvider::new(Blob::from_vec(vec![7, 8]));
    assert_eq!(provider.clone_blob().unwrap().into_vec(), vec![7, 8]);
    let from_file = RepoExportedHeapOrdinaryBlobProvider::from_tracked_ordinary_blob_provider(
        TrackedOrdinaryBlobFile { blob: Blob::from_vec(vec![7, 8]) },
    )
    .unwrap();
    assert_eq!(from_file, provider);
    assert_eq!(provider.into_blob().unwrap().into_vec(), vec![7, 8]);

    let mut file = TrackedOrdinaryBlobFile::from_existing(b"old").unwrap();
    file.load(b"new").unwrap();
    let mut written = Vec::new();
    file.save(&mut written).unwrap();
    assert_eq!(written, b"new".to_vec());
}

#[test]
fn putting_the_same_content_twice_gives_the_same_hash_and_writes_once() {
    let mut dir = MemoryDir::new("blobs");
    let first = put_bytes(&mut dir, b"foo").unwrap();
    assert_eq!(first, HASH_OF_FOO);
    assert_eq!(dir.read_file(HASH_OF_FOO).unwrap(), b"foo".to_vec());
    let second = put_bytes(&mut dir, b"foo").unwrap();
    assert_eq!(second, first);
    assert_eq!(dir.read_file(HASH_OF_FOO).unwrap(), b"foo".to_vec());
    assert_eq!(dir.has_file(HASH_OF_NOTHING).unwrap(), false);
}

#[test]
fn what_stands_under_a_hash_is_not_written_again() {
    let mut dir = MemoryDir::new("blobs");
    dir.create_file(HASH_OF_FOO).unwrap();
    dir.write_file(HASH_OF_FOO, b"what was there").unwrap();
    assert_eq!(put_bytes(&mut dir, b"foo").unwrap(), HASH_OF_FOO);
    assert_eq!(dir.read_file(HASH_OF_FOO).unwrap(), b"what was there".to_vec());
}
