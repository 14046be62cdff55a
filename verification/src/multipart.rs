use vstd::prelude::*;
use vstd::string::StringExecFns;
use vstd::utf8::encode_utf8;
use crate::text::{append_bytes, append_str};

verus! {

/// The line that parts the fields of a body, without the two dashes before it.
pub open spec fn boundary() -> Seq<char> {
    "IMMICHCLIENTMULTIPARTUPLOADBOUND"@
}

/// The bytes that open a field: the end of the field before it, where there is one, and
/// the boundary line.
pub open spec fn boundary_line(data_written: bool) -> Seq<u8> {
    (if data_written {
        encode_utf8("\r\n"@)
    } else {
        Seq::<u8>::empty()
    }) + encode_utf8("--"@) + encode_utf8(boundary()) + encode_utf8("\r\n"@)
}

/// The bytes that name a field.
pub open spec fn disposition(name: Seq<char>) -> Seq<u8> {
    encode_utf8("Content-Disposition: form-data; name=\""@) + encode_utf8(name) + encode_utf8(
        "\""@,
    )
}

/// The bytes that give a field its file name, where it has one.
pub open spec fn filename_part(filename: Option<Seq<char>>) -> Seq<u8> {
    match filename {
        Some(f) => encode_utf8("; filename=\""@) + encode_utf8(f) + encode_utf8("\""@),
        None => Seq::<u8>::empty(),
    }
}

/// The bytes that give a field its content type, where it has one.
pub open spec fn content_type_part(content_type: Option<Seq<char>>) -> Seq<u8> {
    match content_type {
        Some(c) => encode_utf8("\r\nContent-Type: "@) + encode_utf8(c),
        None => Seq::<u8>::empty(),
    }
}

/// The bytes of a field up to its content: the boundary line, the disposition with the
/// field's name, the file name and the content type where they are given, and an empty
/// line.
pub open spec fn field_headers(
    data_written: bool,
    name: Seq<char>,
    filename: Option<Seq<char>>,
    content_type: Option<Seq<char>>,
) -> Seq<u8> {
    boundary_line(data_written) + disposition(name) + filename_part(filename)
        + content_type_part(content_type) + encode_utf8("\r\n\r\n"@)
}

/// The view of an optional string slice.
pub open spec fn opt_view(s: Option<&str>) -> Option<Seq<char>> {
    match s {
        Some(t) => Some(t@),
        None => None,
    }
}

/// The bytes that end a body: the end of the last field, where there is one, and the
/// closing boundary line.
pub open spec fn closing(data_written: bool) -> Seq<u8> {
    (if data_written {
        encode_utf8("\r\n"@)
    } else {
        Seq::<u8>::empty()
    }) + encode_utf8("--"@) + encode_utf8(boundary()) + encode_utf8("--\r\n"@)
}

/// The content type that announces a body with this crate's boundary.
pub open spec fn content_type() -> Seq<char> {
    "multipart/form-data; boundary="@ + boundary()
}

/// Bytes joined one way are the bytes joined the other way.
pub proof fn lemma_join(a: Seq<u8>, b: Seq<u8>, c: Seq<u8>)
    ensures
        (a + b) + c == a + (b + c),
{
    assert((a + b) + c =~= a + (b + c));
}

/// Builds the body of a `multipart/form-data` request field by field.
#[derive(Debug)]
pub struct MultipartBuilder {
    boundary: String,
    inner: Vec<u8>,
    data_written: bool,
}

impl MultipartBuilder {
    /// The bytes written so far.
    pub closed spec fn body(&self) -> Seq<u8> {
        self.inner@
    }

    /// Whether a field was written.
    pub closed spec fn data_written(&self) -> bool {
        self.data_written
    }

    /// The builder keeps this crate's boundary.
    pub closed spec fn wf(&self) -> bool {
        self.boundary@ == boundary()
    }

    /// A builder with nothing written.
    pub fn new() -> (r: Self)
        ensures
            r.wf(),
            r.body() == Seq::<u8>::empty(),
            !r.data_written(),
    {
        MultipartBuilder {
            boundary: "IMMICHCLIENTMULTIPARTUPLOADBOUND".to_owned(),
            inner: Vec::new(),
            data_written: false,
        }
    }

    /// Adds a text field called `name` with the content `text`.
    pub fn add_text(self, name: &str, text: &str) -> (r: Self)
        requires
            self.wf(),
        ensures
            r.wf(),
            r.data_written(),
            r.body() == self.body() + field_headers(self.data_written(), name@, None, None)
                + encode_utf8(text@),
    {
        let mut builder = self;
        builder.write_field_headers(name, None, None);
        append_str(&mut builder.inner, text);
        builder
    }

    /// Adds a field called `name` whose content is `bytes`, under the file name
    /// `filename` where one is given.
    pub fn add_bytes(self, bytes: &[u8], name: &str, filename: Option<&str>) -> (r: Self)
        requires
            self.wf(),
        ensures
            r.wf(),
            r.data_written(),
            r.body() == self.body() + field_headers(
                self.data_written(),
                name@,
                opt_view(filename),
                None,
            ) + bytes@,
    {
        let mut builder = self;
        builder.write_field_headers(name, filename, None);
        append_bytes(&mut builder.inner, bytes);
        builder
    }

    /// Ends the field before, where there is one, and writes the boundary line.
    fn write_boundary(&mut self)
        requires
            old(self).wf(),
        ensures
            final(self).wf(),
            final(self).data_written() == old(self).data_written(),
            final(self).body() == old(self).body() + boundary_line(old(self).data_written()),
    {
        let ghost before = self.inner@;
        if self.data_written {
            append_str(&mut self.inner, "\r\n");
        }
        append_str(&mut self.inner, "--");
        append_str(&mut self.inner, self.boundary.as_str());
        append_str(&mut self.inner, "\r\n");
        assert(self.inner@ =~= before + boundary_line(self.data_written));
    }

    /// Writes the disposition of a field.
    fn write_disposition(&mut self, name: &str)
        ensures
            final(self).wf() == old(self).wf(),
            final(self).data_written() == old(self).data_written(),
            final(self).body() == old(self).body() + disposition(name@),
    {
        let ghost before = self.inner@;
        append_str(&mut self.inner, "Content-Disposition: form-data; name=\"");
        append_str(&mut self.inner, name);
        append_str(&mut self.inner, "\"");
        assert(self.inner@ =~= before + disposition(name@));
    }

    /// Writes the file name of a field, where it has one.
    fn write_filename(&mut self, filename: Option<&str>)
        ensures
            final(self).wf() == old(self).wf(),
            final(self).data_written() == old(self).data_written(),
            final(self).body() == old(self).body() + filename_part(opt_view(filename)),
    {
        let ghost before = self.inner@;
        if let Some(filename) = filename {
            append_str(&mut self.inner, "; filename=\"");
            append_str(&mut self.inner, filename);
            append_str(&mut self.inner, "\"");
        }
        assert(self.inner@ =~= before + filename_part(opt_view(filename)));
    }

    /// Writes the content type of a field, where it has one.
    fn write_content_type(&mut self, content_type: Option<&str>)
        ensures
            final(self).wf() == old(self).wf(),
            final(self).data_written() == old(self).data_written(),
            final(self).body() == old(self).body() + content_type_part(opt_view(content_type)),
    {
        let ghost before = self.inner@;
        if let Some(content_type) = content_type {
            append_str(&mut self.inner, "\r\nContent-Type: ");
            append_str(&mut self.inner, content_type);
        }
        assert(self.inner@ =~= before + content_type_part(opt_view(content_type)));
    }

    /// Opens a field: writes all of it but its content.
    fn write_field_headers(
        &mut self,
        name: &str,
        filename: Option<&str>,
        content_type: Option<&str>,
    )
        requires
            old(self).wf(),
        ensures
            final(self).wf(),
            final(self).data_written(),
            final(self).body() == old(self).body() + field_headers(
                old(self).data_written(),
                name@,
                opt_view(filename),
                opt_view(content_type),
            ),
    {
        let ghost before = self.inner@;
        let ghost written = self.data_written;
        self.write_boundary();
        if !self.data_written {
            self.data_written = true;
        }
        self.write_disposition(name);
        self.write_filename(filename);
        self.write_content_type(content_type);
        append_str(&mut self.inner, "\r\n\r\n");
        proof {
            let a = boundary_line(written);
            let b = disposition(name@);
            let c = filename_part(opt_view(filename));
            let d = content_type_part(opt_view(content_type));
            let e = encode_utf8("\r\n\r\n"@);
            lemma_join(before, a, b);
            lemma_join(before, a + b, c);
            lemma_join(before, a + b + c, d);
            lemma_join(before, a + b + c + d, e);
        }
    }

    /// Closes the body. Gives the content type to announce it with, and its bytes.
    pub fn finish(self) -> (r: (String, Vec<u8>))
        requires
            self.wf(),
        ensures
            r.0@ == content_type(),
            r.1@ == self.body() + closing(self.data_written()),
    {
        let mut body = self.inner;
        if self.data_written {
            append_str(&mut body, "\r\n");
        }
        append_str(&mut body, "--");
        append_str(&mut body, self.boundary.as_str());
        append_str(&mut body, "--\r\n");
        assert(body@ =~= self.inner@ + closing(self.data_written));
        let mut content_type = "multipart/form-data; boundary=".to_owned();
        content_type.append(self.boundary.as_str());
        (content_type, body)
    }
}

impl Default for MultipartBuilder {
    fn default() -> (r: Self)
        ensures
            r.wf(),
            r.body() == Seq::<u8>::empty(),
            !r.data_written(),
    {
        Self::new()
    }
}

} // verus!
