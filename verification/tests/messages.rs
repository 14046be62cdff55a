use immich::takeout::ParseError;
use immich::upload::Status;
use immich::utils::Id;
use immich::{ImmichError, User};

#[test]
fn an_error_says_what_went_wrong() {
    assert_eq!(
        ImmichError::Auth.to_string(),
        "Unable to authenticate or authentication expired"
    );
    assert_eq!(ImmichError::Status(404, "Not Found".to_string()).to_string(), "Status: [404] Not Found");
    assert_eq!(ImmichError::Status(0, String::new()).to_string(), "Status: [0] ");
    assert_eq!(ImmichError::Status(65535, "x".to_string()).to_string(), "Status: [65535] x");
    assert_eq!(ImmichError::Status(10, "x".to_string()).to_string(), "Status: [10] x");
    assert_eq!(ImmichError::Transport("down".to_string()).to_string(), "Error connecting: down");
    assert_eq!(ImmichError::Io { reason: "r".to_string() }.to_string(), "IO error");
    assert_eq!(ImmichError::InvalidUrl("u".to_string()).to_string(), "Invalid URL: u");
    assert_eq!(ImmichError::InvalidResponse.to_string(), "Invalid response from server");
    assert_eq!(ImmichError::Multithread.to_string(), "Error during multithread process");
    assert_eq!(ImmichError::InvalidDate.to_string(), "Invalid date");
    assert_eq!(ImmichError::InvalidId.to_string(), "Invalid ID");
    assert_eq!(ImmichError::InvalidTakeoutArchive.to_string(), "Unable to read Takeout archive");
}

#[test]
fn an_error_of_an_archive_says_what_went_wrong() {
    assert_eq!(
        ParseError::FileNameError("a".to_string()).to_string(),
        "Invalid filename (expected path/filename): a"
    );
    assert_eq!(
        ParseError::FilePathError("b".to_string()).to_string(),
        "Invalid filename (expected prefix/path/filename): b"
    );
    assert_eq!(ParseError::NoPhotoError("c".to_string()).to_string(), "File is not a photo: c");
    assert_eq!(ParseError::InvalidType.to_string(), "Invalid type");
    assert_eq!(
        ParseError::InvalidMetadata("d".to_string()).to_string(),
        "Unable to parse Metadata: d"
    );
    assert_eq!(ParseError::Io { reason: "e".to_string() }.to_string(), "IO error");
}

#[test]
fn an_error_of_an_archive_is_an_unreadable_archive() {
    for error in [
        ParseError::FileNameError("a".to_string()),
        ParseError::InvalidType,
        ParseError::Io { reason: "e".to_string() },
    ] {
        assert!(matches!(ImmichError::from(error), ImmichError::InvalidTakeoutArchive));
    }
}

#[test]
fn a_user_in_one_line() {
    let user = User::new(Id::new("u-1".to_string()), "a@b.c".to_string(), "Ann".to_string());
    assert_eq!(user.to_string(), "Ann <a@b.c> [u-1]");
    assert_eq!(user.id().to_string(), "u-1");
    assert_eq!(Status::Created.label(), "Created");
}
