use vstd::prelude::*;
use crate::auth::Authenticated;

verus! {

/// The method of a request.
#[derive(Clone, Copy, Debug, PartialEq, Eq, Structural)]
pub enum Method {
    Get,
    Post,
    Put,
}

/// The headers as plain text: each a name and a value.
pub open spec fn headers_view(headers: Seq<(String, String)>) -> Seq<(Seq<char>, Seq<char>)> {
    headers.map_values(|h: (String, String)| (h.0@, h.1@))
}

/// The two headers that every request of this client carries.
pub open spec fn default_headers() -> Seq<(Seq<char>, Seq<char>)> {
    seq![("Accept"@, "application/json"@), ("User-Agent"@, "Immich-0.1 (Rust Client)"@)]
}

/// A request before it is sent: its method, its URL and the headers set on it, in the
/// order in which they were set.
#[derive(Debug)]
pub struct Request {
    method: Method,
    url: String,
    headers: Vec<(String, String)>,
}

impl Request {
    /// The method of the request.
    pub closed spec fn method_spec(&self) -> Method {
        self.method
    }

    /// The URL that the request goes to.
    pub closed spec fn url_spec(&self) -> Seq<char> {
        self.url@
    }

    /// The headers set on the request, in the order in which they were set.
    pub closed spec fn headers_spec(&self) -> Seq<(Seq<char>, Seq<char>)> {
        headers_view(self.headers@)
    }

    /// A request to `url` without headers.
    pub fn new(method: Method, url: String) -> (r: Self)
        ensures
            r.method_spec() == method,
            r.url_spec() == url@,
            r.headers_spec() == Seq::<(Seq<char>, Seq<char>)>::empty(),
    {
        let r = Request { method, url, headers: Vec::new() };
        assert(r.headers_spec() =~= Seq::empty());
        r
    }

    /// The method of the request.
    pub fn method(&self) -> (r: Method)
        ensures
            r == self.method_spec(),
    {
        self.method
    }

    /// The URL that the request goes to.
    pub fn url(&self) -> (r: &str)
        ensures
            r@ == self.url_spec(),
    {
        self.url.as_str()
    }

    /// The headers set on the request, in the order in which they were set.
    pub fn headers(&self) -> (r: &Vec<(String, String)>)
        ensures
            headers_view(r@) == self.headers_spec(),
    {
        &self.headers
    }

    /// The request with one more header set.
    pub fn set(self, header: &str, value: &str) -> (r: Self)
        ensures
            r.method_spec() == self.method_spec(),
            r.url_spec() == self.url_spec(),
            r.headers_spec() == self.headers_spec().push((header@, value@)),
    {
        let mut request = self;
        request.headers.push((header.to_owned(), value.to_owned()));
        assert(request.headers_spec() =~= self.headers_spec().push((header@, value@)));
        request
    }

    /// The request with the two headers set that every request of this client carries.
    pub fn add_default_header(self) -> (r: Self)
        ensures
            r.method_spec() == self.method_spec(),
            r.url_spec() == self.url_spec(),
            r.headers_spec() == self.headers_spec() + default_headers(),
    {
        let r = self.set("Accept", "application/json").set(
            "User-Agent",
            crate::utils::client_name(),
        );
        assert(r.headers_spec() =~= self.headers_spec() + default_headers());
        r
    }

    /// The request with the header set that proves who the client is.
    pub fn auth(self, auth: &Authenticated) -> (r: Self)
        ensures
            r.method_spec() == self.method_spec(),
            r.url_spec() == self.url_spec(),
            r.headers_spec() == self.headers_spec().push(
                (auth.header_name(), auth.header_value()),
            ),
    {
        let header = auth.header();
        self.set(header.0, header.1)
    }
}

/// What the server answered: the status, and the body both as the value that its JSON
/// stands for, where it stands for one, and as text, where it is text.
#[derive(Debug)]
pub struct Response<T> {
    pub status: u16,
    pub status_text: String,
    pub json: Option<T>,
    pub text: Option<String>,
}

/// A request that got no answer to work with.
#[derive(Debug)]
pub enum CallError {
    /// The server answered with a status of 400 or above.
    Status { code: u16, status_text: String, display: String },
    /// The connection failed; `message` is what is known of the reason.
    Transport { message: Option<String>, display: String },
}

/// How a request ended.
pub type Reply<T> = Result<Response<T>, CallError>;

} // verus!
