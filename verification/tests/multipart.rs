use immich::multipart::MultipartBuilder;

#[test]
fn an_empty_body_is_only_the_closing_line() {
    let (content_type, body) = MultipartBuilder::new().finish();
    assert_eq!(content_type, "multipart/form-data; boundary=IMMICHCLIENTMULTIPARTUPLOADBOUND");
    assert_eq!(body, b"--IMMICHCLIENTMULTIPARTUPLOADBOUND--\r\n".to_vec());
    let (_, body) = MultipartBuilder::default().finish();
    assert_eq!(body, b"--IMMICHCLIENTMULTIPARTUPLOADBOUND--\r\n".to_vec());
}

#[test]
fn one_text_field() {
    let (_, body) = MultipartBuilder::new().add_text("name", "välue").finish();
    let expected = "--IMMICHCLIENTMULTIPARTUPLOADBOUND\r\n\
Content-Disposition: form-data; name=\"name\"\r\n\r\n\
välue\r\n\
--IMMICHCLIENTMULTIPARTUPLOADBOUND--\r\n";
    assert_eq!(body, expected.as_bytes().to_vec());
}

#[test]
fn text_and_bytes() {
    let (_, body) = MultipartBuilder::new()
        .add_text("a", "1")
        .add_bytes(&[0, 255, 13, 10], "data", Some("f.bin"))
        .add_bytes(&[7], "more", None)
        .finish();
    let mut expected: Vec<u8> = Vec::new();
    expected.extend_from_slice(
        b"--IMMICHCLIENTMULTIPARTUPLOADBOUND\r\nContent-Disposition: form-data; name=\"a\"\r\n\r\n1",
    );
    expected.extend_from_slice(
        b"\r\n--IMMICHCLIENTMULTIPARTUPLOADBOUND\r\nContent-Disposition: form-data; name=\"data\"; filename=\"f.bin\"\r\n\r\n",
    );
    expected.extend_from_slice(&[0, 255, 13, 10]);
    expected.extend_from_slice(
        b"\r\n--IMMICHCLIENTMULTIPARTUPLOADBOUND\r\nContent-Disposition: form-data; name=\"more\"\r\n\r\n",
    );
    expected.extend_from_slice(&[7]);
    expected.extend_from_slice(b"\r\n--IMMICHCLIENTMULTIPARTUPLOADBOUND--\r\n");
    assert_eq!(body, expected);
}
