use filecastalogue::error::ErrorKind;
use filecastalogue::files::blob::BlobProvider;
use filecastalogue::files::hashable::{hash_bytes, Hashable};
use filecastalogue::files::index::{IndexFile, IndexProvider};
use filecastalogue::files::RepoFile;
use filecastalogue::meta::blob::model::Blob;
use filecastalogue::meta::file_aspects::aspects::directory::TrackedDirectoryAspects;
use filecastalogue::meta::file_aspects::aspects::non_existing::TrackedNonExistingAspects;
use filecastalogue::meta::file_aspects::aspects::ordinary::TrackedOrdinaryAspects;
use filecastalogue::meta::file_aspects::aspects::symlink::TrackedSymlinkAspects;
use filecastalogue::meta::file_aspects::attributes::Attributes;
use filecastalogue::meta::file_aspects::enums::TrackedFileAspects;
use filecastalogue::meta::index::model::{key_of_path, path_of_key, Conversion, UnicodePathIndex};
use filecastalogue::meta::index::{Accessor, Index};

fn attributes(user: &str, group: &str) -> Attributes {
    Attributes { posix_user: String::from(user), posix_group: String::from(group) }
}

fn non_existing() -> TrackedFileAspects {
    TrackedFileAspects::NonExisting(TrackedNonExistingAspects::new())
}

fn directory(user: &str, group: &str) -> TrackedFileAspects {
    TrackedFileAspects::Directory(TrackedDirectoryAspects::new(attributes(user, group)))
}

fn ordinary(hash: &str, user: &str, group: &str) -> TrackedFileAspects {
    TrackedFileAspects::Ordinary(TrackedOrdinaryAspects::new(hash, attributes(user, group)))
}

fn symlink(target: &str) -> TrackedFileAspects {
    TrackedFileAspects::Symlink(TrackedSymlinkAspects::new(String::from(target)))
}

fn sample_index() -> Index {
    let mut index = Index::new();
    index.track_file(b"/l", &symlink("/etc/x y")).unwrap();
    index.track_file(b"/gone", &non_existing()).unwrap();
    index.track_file(b"/a", &ordinary("h1", "root", "wheel")).unwrap();
    index.track_file(b"/etc", &directory("root", "root")).unwrap();
    index
}

const SAMPLE_TEXT: &str = "ordinary /a h1 root wheel\n\
directory /etc root root\n\
non_existing /gone\n\
symlink /l /etc/x%20y\n";

#[test]
fn a_fresh_index_is_empty() {
    let index = Index::new();
    assert!(index.is_empty());
    assert!(!index.tracks_files());
    assert_eq!(index.len(), 0);
    assert!(!index.tracks_file(b"/a"));
}

#[test]
fn a_tracked_path_has_the_aspects_it_was_tracked_with() {
    let mut index = Index::new();
    let aspects = directory("root", "root");
    index.track_file(b"/etc", &aspects).unwrap();
    assert!(index.tracks_file(b"/etc"));
    assert!(index.tracks_files());
    assert!(!index.is_empty());
    assert_eq!(index.get_aspects(b"/etc").unwrap(), aspects);
}

#[test]
fn an_untracked_path_is_tracked_no_more() {
    let mut index = Index::new();
    index.track_file(b"/etc", &directory("root", "root")).unwrap();
    index.untrack_file(b"/etc").unwrap();
    assert!(!index.tracks_file(b"/etc"));
    assert_eq!(index, Index::new());
}

#[test]
fn tracking_a_tracked_path_fails_and_changes_nothing() {
    let mut index = sample_index();
    let before = index.clone();
    let error = index.track_file(b"/etc", &non_existing()).unwrap_err();
    assert_eq!(error.kind, ErrorKind::FileAlreadyTracked);
    assert_eq!(
        error.payload,
        Some(String::from("Error: The file at path \"/etc\" is already tracked."))
    );
    assert_eq!(index, before);
    assert_eq!(index.get_aspects(b"/etc").unwrap(), directory("root", "root"));
}

#[test]
fn untracking_and_asking_for_an_untracked_path_fail() {
    let mut index = sample_index();
    let before = index.clone();
    let error = index.untrack_file(b"/nowhere").unwrap_err();
    assert_eq!(error.kind, ErrorKind::UntrackedFile);
    assert_eq!(index, before);
    let error = index.get_aspects(b"/nowhere").unwrap_err();
    assert_eq!(error.kind, ErrorKind::UntrackedFile);
    assert_eq!(
        error.payload,
        Some(String::from("There is no file tracked for path \"/nowhere\"."))
    );
}

#[test]
fn put_file_replaces_what_was_tracked() {
    let mut index = sample_index();
    index.put_file(b"/etc", &non_existing());
    assert_eq!(index.get_aspects(b"/etc").unwrap(), non_existing());
    assert_eq!(index.len(), 4);
    index.put_file(b"/new", &non_existing());
    assert_eq!(index.len(), 5);
}

#[test]
fn entries_stand_in_the_order_of_their_paths() {
    let index = sample_index();
    assert_eq!(index.len(), 4);
    assert_eq!(index.path_at(0), b"/a");
    assert_eq!(index.path_at(1), b"/etc");
    assert_eq!(index.path_at(2), b"/gone");
    assert_eq!(index.path_at(3), b"/l");
    assert_eq!(index.aspects_at(2), &non_existing());
}

#[test]
fn the_canonical_bytes_of_an_index_are_its_lines() {
    let blob = Blob::try_from_index(sample_index()).unwrap();
    assert_eq!(String::from_utf8(blob.into_vec()).unwrap(), SAMPLE_TEXT);
    assert_eq!(Blob::try_from_index(Index::new()).unwrap().len(), 0);
}

#[test]
fn the_order_of_tracking_does_not_show_in_bytes_or_hash() {
    let mut other = Index::new();
    other.track_file(b"/etc", &directory("root", "root")).unwrap();
    other.track_file(b"/a", &ordinary("h1", "root", "wheel")).unwrap();
    other.track_file(b"/extra", &non_existing()).unwrap();
    other.track_file(b"/l", &symlink("/etc/x y")).unwrap();
    other.track_file(b"/gone", &non_existing()).unwrap();
    other.untrack_file(b"/extra").unwrap();
    assert_eq!(other, sample_index());
    let a = IndexFile { index: sample_index() };
    let b = IndexFile { index: other };
    assert_eq!(a.clone_blob().unwrap(), b.clone_blob().unwrap());
    assert_eq!(a.get_hash().unwrap(), b.get_hash().unwrap());
    assert_eq!(a.get_hash().unwrap(), hash_bytes(SAMPLE_TEXT.as_bytes()));
}

#[test]
fn an_index_comes_back_from_its_canonical_bytes() {
    let index = Index::try_from_blob(Blob::from_vec(SAMPLE_TEXT.as_bytes().to_vec())).unwrap();
    assert_eq!(index, sample_index());
    let empty = Index::try_from_blob(Blob::from_vec(Vec::new())).unwrap();
    assert_eq!(empty, Index::new());
}

#[test]
fn paths_that_are_no_text_come_back_byte_for_byte() {
    let paths: Vec<Vec<u8>> = vec![
        vec![0x2f, 0xff, 0xfe],
        b"/with space".to_vec(),
        b"/100%".to_vec(),
        b"/line\nfeed".to_vec(),
        vec![0x00],
        Vec::new(),
    ];
    let mut index = Index::new();
    for path in &paths {
        index.track_file(path, &non_existing()).unwrap();
    }
    let blob = Blob::try_from_index(index.clone()).unwrap();
    let text = String::from_utf8(blob.clone().into_vec()).unwrap();
    assert_eq!(
        text,
        "non_existing \n\
non_existing %2500\n\
non_existing /100%2525\n\
non_existing /line%250Afeed\n\
non_existing /with%2520space\n\
non_existing /%25FF%25FE\n"
    );
    let back = Index::try_from_blob(blob).unwrap();
    assert_eq!(back, index);
    for path in &paths {
        assert!(back.tracks_file(path));
    }
}

#[test]
fn empty_texts_are_kept() {
    let mut index = Index::new();
    index.track_file(b"/d", &directory("", "")).unwrap();
    index.track_file(b"/o", &ordinary("", "u", "")).unwrap();
    index.track_file(b"/s", &symlink("")).unwrap();
    let blob = Blob::try_from_index(index.clone()).unwrap();
    assert_eq!(
        String::from_utf8(blob.clone().into_vec()).unwrap(),
        "directory /d  \nordinary /o  u \nsymlink /s \n"
    );
    assert_eq!(Index::try_from_blob(blob).unwrap(), index);
}

fn refused(text: &[u8]) {
    let error = Index::try_from_blob(Blob::from_vec(text.to_vec())).unwrap_err();
    assert_eq!(error.kind, ErrorKind::MalformedDocument);
}

#[test]
fn bytes_that_are_not_canonical_are_refused() {
    // Not in the order of the paths.
    refused(b"non_existing /b\nnon_existing /a\n");
    // A path twice.
    refused(b"non_existing /a\nnon_existing /a\n");
    // A byte escaped that stands for itself.
    refused(b"non_existing /%2541\n");
    refused(b"non_exist%69ng /a\n");
    // Lower-case digits.
    refused(b"non_existing /%25ff\n");
    // A key that is no escaped form.
    refused(b"non_existing /a%20b\n");
    // No line feed at the end.
    refused(b"non_existing /a");
    // An unknown kind.
    refused(b"hardlink /a\n");
    // Too few and too many fields.
    refused(b"directory /a root\n");
    refused(b"directory /a root root extra\n");
    refused(b"non_existing /a extra\n");
    refused(b"symlink /a\n");
    refused(b"ordinary /a h root\n");
    // An empty line, a blank in front.
    refused(b"\n");
    refused(b" non_existing /a\n");
    // Not UTF-8 where a text is due.
    refused(b"symlink /a %FF\n");
    // JSON is not the canonical form.
    refused(b"{}");
}

#[test]
fn keys_stand_for_paths() {
    assert_eq!(key_of_path(Conversion::NonLossyBytes, b"/etc/passwd"), "/etc/passwd");
    assert_eq!(key_of_path(Conversion::NonLossyBytes, b"/a b"), "/a%20b");
    assert_eq!(key_of_path(Conversion::NonLossyBytes, &[0x2f, 0xff]), "/%FF");
    assert_eq!(key_of_path(Conversion::LossyGraphemes, b"/a b"), "/a b");
    assert_eq!(key_of_path(Conversion::LossyGraphemes, &[0x2f, 0xff]), "/\u{fffd}");
    assert_eq!(path_of_key(Conversion::NonLossyBytes, "/a%20b"), Some(b"/a b".to_vec()));
    assert_eq!(path_of_key(Conversion::NonLossyBytes, "/%FF"), Some(vec![0x2f, 0xff]));
    assert_eq!(path_of_key(Conversion::NonLossyBytes, "/a b"), None);
    assert_eq!(path_of_key(Conversion::NonLossyBytes, "/gr\u{fc}n"), None);
    assert_eq!(path_of_key(Conversion::LossyGraphemes, "/a b"), Some(b"/a b".to_vec()));
    assert_eq!(
        path_of_key(Conversion::LossyGraphemes, "/gr\u{fc}n"),
        Some(vec![0x2f, 0x67, 0x72, 0xc3, 0xbc, 0x6e])
    );
}

#[test]
fn an_index_with_texts_for_paths_and_back() {
    let unicode = UnicodePathIndex::from_index(sample_index(), Conversion::NonLossyBytes).unwrap();
    let keys: Vec<&str> = unicode.files.iter().map(|e| e.0.as_str()).collect();
    assert_eq!(keys, vec!["/a", "/etc", "/gone", "/l"]);
    assert_eq!(unicode.files[1].1, directory("root", "root"));
    assert_eq!(
        String::from_utf8(unicode.to_bytes()).unwrap(),
        SAMPLE_TEXT
    );
    let back = Index::from_unicode_path_index(unicode, Conversion::NonLossyBytes).unwrap();
    assert_eq!(back, sample_index());

    let read = UnicodePathIndex::from_bytes(SAMPLE_TEXT.as_bytes()).unwrap();
    assert_eq!(read.files.len(), 4);
    assert_eq!(read.files[3], (String::from("/l"), symlink("/etc/x y")));
    assert!(UnicodePathIndex::from_bytes(b"symlink /l").is_none());
    let error = UnicodePathIndex::try_from_blob(Blob::from_vec(b"x".to_vec())).unwrap_err();
    assert_eq!(error.kind, ErrorKind::MalformedDocument);
}

#[test]
fn keys_that_stand_for_no_path_are_refused_and_the_last_of_equal_keys_stays() {
    let unicode = UnicodePathIndex {
        files: vec![(String::from("/a b"), non_existing())],
    };
    let error = Index::from_unicode_path_index(unicode, Conversion::NonLossyBytes).unwrap_err();
    assert_eq!(error.kind, ErrorKind::MalformedDocument);

    let unicode = UnicodePathIndex {
        files: vec![
            (String::from("/b"), non_existing()),
            (String::from("/a b"), non_existing()),
            (String::from("/b"), symlink("/x")),
        ],
    };
    let index = Index::from_unicode_path_index(unicode, Conversion::LossyGraphemes).unwrap();
    assert_eq!(index.len(), 2);
    assert_eq!(index.path_at(0), b"/a b");
    assert_eq!(index.get_aspects(b"/b").unwrap(), symlink("/x"));
}

#[test]
fn an_index_file_loads_and_saves_canonical_bytes() {
    let mut file = IndexFile::new();
    assert!(file.get_index_ref().unwrap().is_empty());
    file.load(SAMPLE_TEXT.as_bytes()).unwrap();
    assert_eq!(file.index, sample_index());
    let error = file.load(b"nonsense").unwrap_err();
    assert_eq!(error.kind, ErrorKind::MalformedDocument);
    assert_eq!(file.index, sample_index());

    let mut written = b"before:".to_vec();
    file.save(&mut written).unwrap();
    assert_eq!(String::from_utf8(written).unwrap(), format!("before:{}", SAMPLE_TEXT));

    file.set_index(Index::new()).unwrap();
    assert_eq!(file.into_blob().unwrap().len(), 0);

    let file = IndexFile::from_existing(SAMPLE_TEXT.as_bytes()).unwrap();
    assert_eq!(file.index, sample_index());
    assert_eq!(
        IndexFile::from_existing(b"directory /a\n").unwrap_err().kind,
        ErrorKind::MalformedDocument
    );
}
