use immich::takeout::metadata::{parse, parse_i64, Metadata, PhotoTakenTime};
use immich::takeout::ParseError;

#[test]
fn parse_json() {
    let data = r#"
{
  "title": "IMG_20130609_101429.jpg",
  "description": "",
  "imageViews": "26",
  "creationTime": {
    "timestamp": "1400220491",
    "formatted": "May 16, 2014, 6:08:11 AM UTC"
  },
  "photoTakenTime": {
    "timestamp": "1370762069",
    "formatted": "Jun 9, 2013, 7:14:29 AM UTC"
  }
}
"#;
    let value: serde_json::Value = serde_json::from_str(data).unwrap();
    let timestamp = value["photoTakenTime"]["timestamp"].as_str().unwrap().to_string();
    let p = Metadata::new(timestamp);

    assert_eq!(p.photo_taken_time.timestamp, String::from("1370762069"));
    assert_eq!(p.timestamp(), Some(1370762069));
    assert_eq!(parse(Some(&p), "Album1/a.jpg.json").unwrap().unix_timestamp(), 1370762069);
}

#[test]
fn numbers_are_read_as_the_standard_library_reads_them() {
    for text in [
        "0",
        "7",
        "007",
        "-0",
        "+0",
        "+12",
        "-12",
        "1370762069",
        "9223372036854775807",
        "9223372036854775808",
        "-9223372036854775808",
        "-9223372036854775809",
        "99999999999999999999999999999999999999999999",
        "-99999999999999999999999999999999999999999999",
        "0000000000000000000000000000000000000000000001",
        "",
        "+",
        "-",
        "--1",
        "+-1",
        "1-",
        " 1",
        "1 ",
        "1.0",
        "1e3",
        "0x10",
        "١٢٣",
        "12a",
    ] {
        assert_eq!(parse_i64(text), text.parse::<i64>().ok(), "{text:?}");
    }
}

#[test]
fn metadata_without_a_usable_time_is_refused() {
    match parse(None, "Album1/a.jpg.json") {
        Err(ParseError::InvalidMetadata(m)) => assert_eq!(m, "Can't parse JSON for Album1/a.jpg.json"),
        other => panic!("{other:?}"),
    }
    match parse(Some(&Metadata::new("soon".to_string())), "p") {
        Err(ParseError::InvalidMetadata(m)) => assert_eq!(m, "Can't parse Timestamp to i64"),
        other => panic!("{other:?}"),
    }
    match parse(Some(&Metadata::new("253402300800".to_string())), "p") {
        Err(ParseError::InvalidMetadata(m)) => {
            assert_eq!(m, "Can't create OffsetData from timestamp")
        }
        other => panic!("{other:?}"),
    }
    assert!(parse(Some(&Metadata::new("253402300799".to_string())), "p").is_ok());
}

#[test]
fn the_time_of_a_photo_on_the_wire() {
    let t = PhotoTakenTime { timestamp: "1370762069".to_string() };
    assert_eq!(t.to_string(), Some("2013-06-09T07:14:29.000Z".to_string()));
    let t = PhotoTakenTime { timestamp: "x".to_string() };
    assert_eq!(t.to_string(), None);
}
