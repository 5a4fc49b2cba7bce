use filecastalogue::error::{
    ConversionWasLossy, Error, ErrorKind, ErrorPathBuf, KeyValuePayload, Payload, WrappedError,
};
use filecastalogue::files::{AccessRepoFileErrorPayload, OffendingAction};
use filecastalogue::meta::index::error::{FileAlreadyTrackedErrorPayload, UntrackedFileErrorPayload};
use filecastalogue::meta::index::Index;
use filecastalogue::meta::state::error::{
    VersionEntryAlreadyExistsErrorPayload, VersionEntryDoesNotExistErrorPayload,
};
use filecastalogue::meta::version::model::Version;
use filecastalogue::opaque_collection_handler::{
    DoubleDotFileName, PathDoesNotExistInCollectionPayload,
};

const WARNING: &str = "[WARNING: The path might be rendered incorrectly in this error message, as lossless conversion to unicode wasn't possible.] ";

#[test]
fn every_kind_has_its_sentence() {
    assert_eq!(ErrorKind::RepoFileOperationFailed.as_str(), "Repo-file operation failed.");
    assert_eq!(ErrorKind::FileAlreadyTracked.as_str(), "File already tracked.");
    assert_eq!(ErrorKind::VersionEntryDoesNotExist.as_str(), "Version entry doesn't exist.");
    assert_eq!(ErrorKind::VersionEntryAlreadyExists.as_str(), "Version entry already exists.");
    assert_eq!(
        ErrorKind::UntrackedFile.as_str(),
        "Path for which there is no file tracked encountered."
    );
    assert_eq!(ErrorKind::DoubleDotFileName.as_str(), "Double-dot (..) file name encountered.");
    assert_eq!(
        ErrorKind::PathDoesNotExistInCollection.as_str(),
        "Path doesn't exist in collection."
    );
    assert_eq!(
        ErrorKind::PuttingFileIntoCollectionFailed.as_str(),
        "Putting file into collection failed."
    );
    assert_eq!(ErrorKind::TestSetupSafetyCheckFailed.as_str(), "Test setup safety check failed.");
    assert_eq!(ErrorKind::Io.as_str(), "Standard IO Error: std::io::Error.");
    assert_eq!(
        ErrorKind::Serde.as_str(),
        "Error with JSON (de)serialization: serde_json::Error."
    );
    assert_eq!(ErrorKind::MalformedDocument.as_str(), "Stored document is not in canonical form.");
}

#[test]
fn the_warning_stands_where_a_path_was_not_a_text() {
    assert_eq!(ConversionWasLossy::Yes.as_str(), WARNING);
    assert_eq!(ConversionWasLossy::No.as_str(), "");
    assert_eq!(ErrorPathBuf::from_path(b"/etc/passwd").describe(), "/etc/passwd");
    assert_eq!(ErrorPathBuf::from_path(b"").describe(), "");
    assert_eq!(ErrorPathBuf::from_path("/gr\u{fc}n".as_bytes()).describe(), "/gr\u{fc}n");
    assert_eq!(
        ErrorPathBuf::from_path(&[0x2f, 0xff, 0x61]).describe(),
        format!("{}/\u{fffd}a", WARNING)
    );
}

#[test]
fn an_error_holds_what_it_was_made_of() {
    let error = Error::new(
        ErrorKind::UntrackedFile,
        "Getting file aspects by path.",
        Some(String::from("payload")),
        None,
    );
    assert_eq!(error.kind, ErrorKind::UntrackedFile);
    assert_eq!(error.context, "Getting file aspects by path.");
    assert_eq!(error.payload, Some(String::from("payload")));
    assert!(error.wrapped.is_none());
    assert!(error.source().is_none());
    assert_eq!(error.describe(), "Error: Path for which there is no file tracked encountered..");

    let plain = Error::plain(ErrorKind::Io, "context");
    assert_eq!((plain.kind, plain.context.as_str()), (ErrorKind::Io, "context"));
    assert!(plain.payload.is_none() && plain.wrapped.is_none());

    let with_payload = Error::with_payload(
        ErrorKind::DoubleDotFileName,
        "context",
        &DoubleDotFileName { original_path: String::from("..") },
    );
    assert_eq!(with_payload.payload, Some(String::from("Original path: ..")));

    let wrapping = Error::wrapping(ErrorKind::RepoFileOperationFailed, "outer", None, plain);
    assert_eq!(wrapping.kind, ErrorKind::RepoFileOperationFailed);
    assert_eq!(wrapping.source().unwrap().kind, ErrorKind::Io);
    assert_eq!(wrapping.source().unwrap().context, "context");
}

#[test]
fn errors_of_backends_and_of_json_are_wrapped_as_texts() {
    let error = Error::from_io(String::from("disk full"));
    assert_eq!(error.kind, ErrorKind::Io);
    assert_eq!(error.context, "<converted from std::io::Error>");
    assert!(matches!(error.wrapped, Some(WrappedError::Io(ref text)) if text == "disk full"));
    assert!(error.source().is_none());

    assert_eq!(error.wrapped.as_ref().unwrap().describe(), "disk full");
    let wrapping = WrappedError::Fc(Box::new(Error::plain(ErrorKind::Io, "context")));
    assert_eq!(wrapping.describe(), "Error: Standard IO Error: std::io::Error..");

    let error = Error::from_serde(String::from("expected value"));
    assert_eq!(error.kind, ErrorKind::Serde);
    assert_eq!(error.context, "<converted from serde_json::Error>");
    assert!(
        matches!(error.wrapped, Some(WrappedError::Serde(ref text)) if text == "expected value")
    );
}

#[test]
fn payloads_describe_what_went_wrong() {
    assert_eq!(
        VersionEntryAlreadyExistsErrorPayload {
            version_id: String::from("v1"),
            version_struct: Version::new(),
        }
        .describe(),
        "An entry for version \"v1\" already exists."
    );
    assert_eq!(
        VersionEntryDoesNotExistErrorPayload { version_id: String::from("v1") }.describe(),
        "Error: There's no entry for version \"v1\"."
    );
    assert_eq!(
        FileAlreadyTrackedErrorPayload { path: b"/a".to_vec(), index_struct: Index::new() }
            .describe(),
        "Error: The file at path \"/a\" is already tracked."
    );
    assert_eq!(
        UntrackedFileErrorPayload { path: vec![0x2f, 0xff] }.describe(),
        format!("There is no file tracked for path \"{}/\u{fffd}\".", WARNING)
    );
    assert_eq!(
        PathDoesNotExistInCollectionPayload {
            collection_path: String::from("/repo/blobs"),
            file_name: String::from("abc"),
        }
        .describe(),
        "Collection path: /repo/blobs, file name: abc."
    );
    assert_eq!(
        AccessRepoFileErrorPayload::new(OffendingAction::SavingRepoFile, "State", None, None)
            .describe(),
        "Failed saving repo-file, file identifier: State."
    );
    assert_eq!(
        AccessRepoFileErrorPayload::new(
            OffendingAction::LoadingRepoFile,
            "State",
            Some(String::from("a file")),
            Some(String::from("8 KiB")),
        )
        .describe_in_full(),
        "Failed loading repo-file, file identifier: State.Stream info: a fileBuf(Reader/Writer) info: 8 KiB"
    );
    assert_eq!(
        AccessRepoFileErrorPayload::new(
            OffendingAction::LoadingRepoFile,
            "State",
            None,
            Some(String::from("8 KiB")),
        )
        .describe_in_full(),
        "Failed loading repo-file, file identifier: State.Buf(Reader/Writer) info: 8 KiB"
    );
    assert_eq!(OffendingAction::LoadingRepoFile.as_str(), "loading repo-file");
    assert_eq!(OffendingAction::SavingRepoFile.as_str(), "saving repo-file");
    assert_eq!(String::from("as it is").describe(), "as it is");
}

#[test]
fn a_payload_of_named_values_keeps_one_value_for_each_name() {
    assert_eq!(KeyValuePayload::new().describe(), "");
    let payload = KeyValuePayload::new()
        .add("File name: ", String::from("abc"))
        .add("Collection: ", String::from("blobs"))
        .add("File name: ", String::from("def"));
    assert_eq!(payload.describe(), "File name: def\nCollection: blobs\n");
}
