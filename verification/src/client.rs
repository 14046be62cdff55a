use vstd::prelude::*;
use crate::album::{uploaded_ids, Album, Albums};
use crate::api::bulk_check::{BulkCheckRequest, BulkUploadCheck};
use crate::api::requests::{ids_view, AddToAlbum};
use crate::api::upload::{outcomes, uploaded_view, ParallelUpload, Uploaded};
use crate::asset::{sha1_hex, Asset};
use crate::auth::Authenticated;
use crate::host::Host;
use crate::http::{default_headers, CallError, Method, Reply, Request};
use crate::url::{joined, Url};
use crate::utils::{ImmichError, User};

verus! {

/// A server and the proof of who asks: all that a request to the server needs.
#[derive(Debug)]
pub struct Client {
    url: Url,
    auth: Authenticated,
}

impl Clone for Client {
    fn clone(&self) -> (r: Self)
        ensures
            r == *self,
    {
        Client { url: self.url.clone(), auth: self.auth.clone() }
    }
}

/// The headers of every request that a client with the proof `auth` sends.
pub open spec fn client_headers(auth: Authenticated) -> Seq<(Seq<char>, Seq<char>)> {
    default_headers().push((auth.header_name(), auth.header_value()))
}

impl Client {
    /// The base URL of the server.
    pub closed spec fn url_spec(&self) -> Seq<char> {
        self.url@
    }

    /// The proof of who asks.
    pub closed spec fn auth_spec(&self) -> Authenticated {
        self.auth
    }

    /// Whether `request` is the request of this client to `path` by `method`.
    pub open spec fn is_request(&self, request: &Request, method: Method, path: Seq<char>) -> bool {
        &&& request.method_spec() == method
        &&& request.url_spec() == joined(self.url_spec(), path)
        &&& request.headers_spec() == client_headers(self.auth_spec())
    }

    /// The client for the server at `url` that the reply to a login gave: see
    /// `Host::new` and `Host::email`.
    pub fn with_email(url: &str, reply: Reply<crate::auth::Login>) -> (r: Result<
        Self,
        ImmichError,
    >)
        ensures
            match Host::new_spec(url@) {
                None => r matches Err(ImmichError::InvalidUrl(_)),
                Some(host_url) => match Host::email_spec(reply) {
                    Ok(cookie) => {
                        &&& r matches Ok(client)
                        &&& client.url_spec() == host_url
                        &&& client.auth_spec() matches Authenticated::Cookie(c)
                        &&& c@ == cookie
                    },
                    Err(e) => r matches Err(error) && Host::failure_of(error) == e,
                },
            },
    {
        match Host::new(url) {
            Ok(host) => host.email(reply),
            Err(e) => Err(e),
        }
    }

    /// The client for the server at `url` that proves who it is by `key`, where the
    /// server answered the probe with that key (see `check_auth`) by status 200; else
    /// `Auth`.
    pub fn with_key<T>(url: &str, key: &str, reply: &Reply<T>) -> (r: Result<Self, ImmichError>)
        ensures
            match Host::new_spec(url@) {
                None => r matches Err(ImmichError::InvalidUrl(_)),
                Some(host_url) => if Self::accepted(reply) {
                    &&& r matches Ok(client)
                    &&& client.url_spec() == host_url
                    &&& client.auth_spec() matches Authenticated::ApiKey(k)
                    &&& k@ == key@
                } else {
                    r matches Err(ImmichError::Auth)
                },
            },
    {
        match Host::new(url) {
            Ok(host) => host.key(key, reply),
            Err(e) => Err(e),
        }
    }

    /// The client for the server at `url` with the proof `auth`.
    pub fn new(url: Url, auth: Authenticated) -> (r: Self)
        ensures
            r.url_spec() == url@,
            r.auth_spec() == auth,
    {
        Client { url, auth }
    }

    /// Whether the server accepted the proof: it answered with status 200.
    pub open spec fn accepted<T>(reply: &Reply<T>) -> bool {
        reply matches Ok(response) && response.status == 200
    }

    /// The request that probes whether the server accepts the proof.
    pub fn check_auth_request(&self) -> (r: Request)
        ensures
            self.is_request(&r, Method::Get, "/auth/validateToken"@),
    {
        self.get("/auth/validateToken")
    }

    /// Whether the reply to the probe says that the server accepts the proof.
    pub fn check_auth<T>(reply: &Reply<T>) -> (r: bool)
        ensures
            r == Self::accepted(reply),
    {
        match reply {
            Ok(response) => response.status == 200,
            Err(_) => false,
        }
    }

    /// The request for the user that the client acts for.
    pub fn user_request(&self) -> (r: Request)
        ensures
            self.is_request(&r, Method::Get, "/users/me"@),
    {
        self.get("/users/me")
    }

    /// The user that the reply tells of. Status 200 with a body that is a user gives
    /// that user. Another status is `Status` with the text of the body; a body that
    /// cannot be read is `Io`; a request without an answer is `Transport` with the
    /// description of what went wrong.
    pub fn user(reply: Reply<User>) -> (r: Result<User, ImmichError>)
        ensures
            match reply {
                Ok(response) => if response.status == 200 {
                    match response.json {
                        Some(user) => r == Ok::<User, ImmichError>(user),
                        None => r matches Err(ImmichError::Io { .. }),
                    }
                } else {
                    match response.text {
                        Some(text) => r matches Err(ImmichError::Status(code, t)) && code
                            == response.status && t@ == text@,
                        None => r matches Err(ImmichError::Io { .. }),
                    }
                },
                Err(CallError::Status { display, .. }) => r matches Err(
                    ImmichError::Transport(t),
                ) && t@ == display@,
                Err(CallError::Transport { display, .. }) => r matches Err(
                    ImmichError::Transport(t),
                ) && t@ == display@,
            },
    {
        match reply {
            Ok(response) => {
                if response.status == 200 {
                    match response.json {
                        Some(user) => Ok(user),
                        None => Err(ImmichError::unreadable_body()),
                    }
                } else {
                    match response.text {
                        Some(text) => Err(ImmichError::Status(response.status, text)),
                        None => Err(ImmichError::unreadable_body()),
                    }
                }
            },
            Err(CallError::Status { display, .. }) => Err(ImmichError::Transport(display)),
            Err(CallError::Transport { display, .. }) => Err(ImmichError::Transport(display)),
        }
    }

    /// A request of this client to `path` by `method`: it carries the default headers
    /// and the proof of who asks.
    fn request(&self, method: Method, path: &str) -> (r: Request)
        ensures
            self.is_request(&r, method, path@),
    {
        Request::new(method, self.url.add_path(path)).add_default_header().auth(&self.auth)
    }

    /// A GET request to `url`, a path on the server.
    pub fn get(&self, url: &str) -> (r: Request)
        ensures
            self.is_request(&r, Method::Get, url@),
    {
        self.request(Method::Get, url)
    }

    /// A POST request to `url`, a path on the server.
    pub fn post(&self, url: &str) -> (r: Request)
        ensures
            self.is_request(&r, Method::Post, url@),
    {
        self.request(Method::Post, url)
    }

    /// A PUT request to `url`, a path on the server.
    pub fn put(&self, url: &str) -> (r: Request)
        ensures
            self.is_request(&r, Method::Put, url@),
    {
        self.request(Method::Put, url)
    }

    /// The request for all albums on the server.
    pub fn albums_request(&self) -> (r: Request)
        ensures
            self.is_request(&r, Method::Get, "/albums"@),
    {
        self.get("/albums")
    }

    /// The albums that the reply tells of: those of its body, whatever the status.
    /// A body that cannot be read is `Io`; a request without an answer is what
    /// `ImmichError::from` makes of it.
    pub fn albums(reply: Reply<Albums>) -> (r: Result<Albums, ImmichError>)
        ensures
            match reply {
                Ok(response) => match response.json {
                    Some(albums) => r == Ok::<Albums, ImmichError>(albums),
                    None => r matches Err(ImmichError::Io { .. }),
                },
                Err(CallError::Status { code, status_text, .. }) => r matches Err(
                    ImmichError::Status(c, t),
                ) && c == code && t@ == status_text@,
                Err(CallError::Transport { message, .. }) => r matches Err(
                    ImmichError::Transport(t),
                ) && t@ == match message {
                    Some(m) => m@,
                    None => "Unknown connection error"@,
                },
            },
    {
        match reply {
            Ok(response) => match response.json {
                Some(albums) => Ok(albums),
                None => Err(ImmichError::unreadable_body()),
            },
            Err(error) => Err(ImmichError::from(error)),
        }
    }

    /// The request that checks for `assets` whether the server has them, and what it
    /// sends: see `BulkUploadCheck::post`. What the reply means says
    /// `BulkUploadCheck::apply`.
    pub fn bulk_check(&self, assets: &Vec<Asset>) -> (r: (Request, Vec<BulkCheckRequest>))
        ensures
            self.is_request(&r.0, Method::Post, "/assets/bulk-upload-check"@),
            r.1@.len() == assets@.len(),
            forall|i: int|
                0 <= i < assets@.len() ==> (#[trigger] r.1@[i]).id@ == assets@[i].id_spec()
                    && r.1@[i].checksum@ == sha1_hex(assets@[i].asset_data_spec()),
    {
        BulkUploadCheck::post(self, assets)
    }

    /// What is reported of the uploads `work`, each an asset with the reply of the
    /// server to its upload, by `upload_concurrency` workers: one report for each
    /// asset.
    pub fn upload(upload_concurrency: usize, work: Vec<(Asset, Reply<Uploaded>)>) -> (r: Vec<
        Uploaded,
    >)
        ensures
            r@.len() == work@.len(),
            uploaded_view(r@) == outcomes(work@),
    {
        ParallelUpload::new(upload_concurrency).post(work)
    }

    /// What is reported of the uploads `work`, and the request that adds the assets
    /// that went through to `album`, with what it sends; `InvalidUrl` in its place
    /// where the id of the album has not the shape of an id. What came of it all,
    /// once the server replied, says `Album::add_uploaded`.
    pub fn upload_to_album(
        &self,
        upload_concurrency: usize,
        work: Vec<(Asset, Reply<Uploaded>)>,
        album: &Album,
    ) -> (r: (Vec<Uploaded>, Result<(Request, AddToAlbum), ImmichError>))
        ensures
            uploaded_view(r.0@) == outcomes(work@),
            crate::utils::safe_shape(album.id_spec()) ==> (r.1 matches Ok(sent) && ids_view(
                sent.1.ids@,
            ) == uploaded_ids(outcomes(work@)) && sent.0.method_spec() == Method::Put),
            !crate::utils::safe_shape(album.id_spec()) ==> r.1 matches Err(
                ImmichError::InvalidUrl(_),
            ),
    {
        let results = Self::upload(upload_concurrency, work);
        let request = album.add_assets(self, Album::uploaded(&results));
        (results, request)
    }

    /// The proof of who asks.
    pub fn auth(&self) -> (r: &Authenticated)
        ensures
            *r == self.auth_spec(),
    {
        &self.auth
    }

    /// The base URL of the server.
    pub fn url(&self) -> (r: &Url)
        ensures
            r@ == self.url_spec(),
    {
        &self.url
    }
}

} // verus!
