use immich::takeout::file::{FileType, Filename};
use immich::takeout::ParseError;
use std::path::Path;

#[test]
fn normalize_duplicates() {
    let mut s = "IMG_20131023_123651.jpg(1)".to_string();
    Filename::normalize_duplicates(&mut s);
    assert_eq!(&s, "IMG_20131023_123651(1).jpg");

    let mut s = "IMG_20131023_123627.jpg(1)".to_string();
    Filename::normalize_duplicates(&mut s);
    assert_eq!(&s, "IMG_20131023_123627(1).jpg");

    let mut s = "IMG_20131023_123651.jpg(9)".to_string();
    Filename::normalize_duplicates(&mut s);
    assert_eq!(&s, "IMG_20131023_123651(9).jpg");

    let mut s = "IMG_20131023_123627.jpg(9)".to_string();
    Filename::normalize_duplicates(&mut s);
    assert_eq!(&s, "IMG_20131023_123627(9).jpg");

    let mut s = "IMG_20131023_123651.jpg(11)".to_string();
    Filename::normalize_duplicates(&mut s);
    assert_eq!(&s, "IMG_20131023_123651(11).jpg");

    let mut s = "IMG_20131023_123627.jpg(12)".to_string();
    Filename::normalize_duplicates(&mut s);
    assert_eq!(&s, "IMG_20131023_123627(12).jpg");

    let mut s = "IMG_20131023_123627.jpg".to_string();
    Filename::normalize_duplicates(&mut s);
    assert_eq!(&s, "IMG_20131023_123627.jpg");

    let mut s = "IMG_20131023_123627(1).jpg".to_string();
    Filename::normalize_duplicates(&mut s);
    assert_eq!(&s, "IMG_20131023_123627(1).jpg");
}

fn normalized(name: &str) -> String {
    let mut s = name.to_string();
    Filename::normalize_duplicates(&mut s);
    s
}

#[test]
fn normalize_duplicates_is_idempotent_on_ordinary_names() {
    for name in [
        "IMG_20131023_123651.jpg(1)",
        "IMG_20131023_123651(1).jpg",
        "plain.png",
        "",
        ")",
        "(",
        "a(1)",
        "ünï.jpg(2)",
        "no_extension(3)",
    ] {
        let once = normalized(name);
        assert_eq!(normalized(&once), once, "{name}");
    }
}

#[test]
fn normalize_duplicates_drops_the_mark_of_a_name_without_a_dot() {
    assert_eq!(normalized("abc(1)"), "abc");
    assert_eq!(normalized("(1)"), "");
}

#[test]
fn normalize_duplicates_moves_any_bracket_at_the_end() {
    assert_eq!(normalized("a.jpg(x)"), "a(x).jpg");
    assert_eq!(normalized("a.b.jpg(1)"), "a.b(1).jpg");
    assert_eq!(normalized("a(1).jpg(2)"), "a(1)(2).jpg");
}

#[test]
fn normalize_duplicates_is_not_idempotent_on_a_repeated_suffix() {
    let once = normalized("a.b)(1)");
    assert_eq!(once, "a(1).b)");
    assert_eq!(normalized(&once), "a");
    let once = normalized("a(1)(2)");
    assert_eq!(once, "a(1)");
    assert_eq!(normalized(&once), "a");
}

fn parts(path: &str) -> (String, String, FileType) {
    let f = Filename::try_from(path).unwrap();
    (f.album().to_string(), f.name().to_string(), *f.filetype())
}

#[test]
fn classifies_an_original() {
    assert_eq!(
        parts("Album1/a.jpg"),
        ("Album1".to_string(), "a.jpg".to_string(), FileType::Original)
    );
    assert_eq!(
        parts("Takeout/Google Photos/Trip to Rome/IMG_0001.HEIC"),
        ("Trip to Rome".to_string(), "IMG_0001.HEIC".to_string(), FileType::Original)
    );
}

#[test]
fn classifies_every_media_extension_whatever_its_case() {
    for ext in ["jpg", "jpeg", "png", "webp", "heic", "mp4", "m4v", "webm", "3gp", "gif"] {
        let lower = format!("album/base.{ext}");
        assert_eq!(*Filename::try_from(&lower).unwrap().filetype(), FileType::Original);
        let upper = format!("album/base.{}", ext.to_uppercase());
        assert_eq!(*Filename::try_from(&upper).unwrap().filetype(), FileType::Original);
        assert_eq!(FileType::try_from(&upper).unwrap(), FileType::Original);
    }
    assert_eq!(*Filename::try_from("album/base.JpG").unwrap().filetype(), FileType::Original);
}

#[test]
fn classifies_an_edited_version() {
    assert_eq!(
        parts("Album1/a-edited.jpg"),
        ("Album1".to_string(), "a.jpg".to_string(), FileType::Edited)
    );
    assert_eq!(
        parts("Album1/my edited photo.png"),
        ("Album1".to_string(), "my edited photo.png".to_string(), FileType::Edited)
    );
}

#[test]
fn classifies_metadata() {
    assert_eq!(
        parts("Album1/a.jpg.json"),
        ("Album1".to_string(), "a.jpg".to_string(), FileType::Metadata)
    );
    assert_eq!(
        parts("Album1/a.jpg.supplemental-metadata.json"),
        ("Album1".to_string(), "a.jpg".to_string(), FileType::Metadata)
    );
    assert_eq!(
        parts("Album1/IMG_20131023_123651.jpg(1).json"),
        ("Album1".to_string(), "IMG_20131023_123651(1).jpg".to_string(), FileType::Metadata)
    );
    assert_eq!(
        parts("Album1/a-edited.jpg.JSON"),
        ("Album1".to_string(), "a.jpg.JSON".to_string(), FileType::Metadata)
    );
}

#[test]
fn classifies_anything_else_as_unknown() {
    assert_eq!(
        parts("Album1/notes.txt"),
        ("Album1".to_string(), "notes.txt".to_string(), FileType::Unknown)
    );
    assert_eq!(FileType::try_from("notes.txt").unwrap(), FileType::Unknown);
    assert_eq!(FileType::try_from("Album1/a.").unwrap(), FileType::Unknown);
}

#[test]
fn strips_the_three_marks_in_order() {
    assert_eq!(parts("x/a.js-editedon.jpg").1, "a.jpg");
    assert_eq!(parts("x/-edited-edited.gif").1, ".gif");
    assert_eq!(parts("x/a-edi-editedted.gif").1, "a-edited.gif");
}

#[test]
fn a_name_without_an_extension_is_refused() {
    for path in ["Album1/README", "Album1/", "Album1/.hidden", "", ".", "..", "a/..", "/"] {
        match Filename::try_from(path) {
            Err(ParseError::FileNameError(m)) => {
                assert_eq!(m, "File does not have an extension", "{path}")
            }
            other => panic!("{path}: {other:?}"),
        }
        assert!(matches!(FileType::try_from(path), Err(ParseError::FileNameError(_))));
    }
}

#[test]
fn a_file_outside_any_directory_is_refused() {
    for path in ["a.jpg", "/a.jpg", "./a.jpg", "../a.jpg", "//a.jpg", "././a.jpg"] {
        match Filename::try_from(path) {
            Err(ParseError::FilePathError(m)) => {
                assert_eq!(m, "Asset path must contain an album name", "{path}")
            }
            other => panic!("{path}: {other:?}"),
        }
        assert!(FileType::try_from(path).is_ok());
    }
}

#[test]
fn paths_are_taken_apart_as_the_standard_library_does() {
    for path in [
        "Album1/a.jpg",
        "a/b/c.d.e",
        "a//b.png",
        "a/./b.png",
        "./a/b.png",
        "a/b.png/",
        "a/b.png/.",
        "/a/b.png",
        "a/../b.png",
        "../a/b.gif",
        "a/..b.gif",
        "a/.b.gif",
        "a/b..gif",
        "a/...",
        "a/b.json",
        "Ünï/Köln.JPEG",
    ] {
        let std_path = Path::new(path);
        let album = std_path
            .parent()
            .and_then(|p| p.file_name())
            .map(|s| s.to_string_lossy().to_string());
        let has_extension = std_path.extension().is_some();
        match Filename::try_from(path) {
            Ok(f) => {
                assert!(has_extension, "{path}");
                assert_eq!(Some(f.album().to_string()), album, "{path}");
            }
            Err(ParseError::FileNameError(_)) => assert!(!has_extension, "{path}"),
            Err(ParseError::FilePathError(_)) => {
                assert!(has_extension && album.is_none(), "{path}")
            }
            Err(other) => panic!("{path}: {other:?}"),
        }
    }
}
