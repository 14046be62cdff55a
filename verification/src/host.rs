use vstd::prelude::*;
use vstd::string::StringExecFns;
use crate::auth::{Authenticated, Credentials, Login};
use crate::client::Client;
use crate::http::{default_headers, CallError, Method, Reply, Request};
use crate::url::{has_web_scheme, joined, without_trailing_slashes, Url};
use crate::utils::ImmichError;

verus! {

/// A server that nobody has logged in to yet.
#[derive(Debug)]
pub struct Host {
    url: Url,
}

/// Why a login failed, without the texts.
pub enum LoginFailure {
    /// The server answered with another status than 201.
    Refused,
    /// The body of the answer cannot be read.
    Unreadable,
    /// The request got an answer with a status of 400 or above.
    Status(u16),
    /// The connection failed.
    Transport,
}

impl Host {
    /// The base URL of the server.
    pub closed spec fn url_spec(&self) -> Seq<char> {
        self.url@
    }

    /// The base URL that `url` gives, where it gives one: `url` without the slashes at
    /// its end, where that begins with `http://` or `https://`.
    pub open spec fn new_spec(url: Seq<char>) -> Option<Seq<char>> {
        if has_web_scheme(without_trailing_slashes(url)) {
            Some(without_trailing_slashes(url))
        } else {
            None
        }
    }

    /// What the reply to a login gives: the cookie of the session, or why there is none.
    pub open spec fn email_spec(reply: Reply<Login>) -> Result<Seq<char>, LoginFailure> {
        match reply {
            Ok(response) => if response.status == 201 {
                match response.json {
                    Some(login) => Ok("immich_access_token="@ + login.access_token@),
                    None => Err(LoginFailure::Unreadable),
                }
            } else {
                Err(LoginFailure::Refused)
            },
            Err(CallError::Status { code, .. }) => Err(LoginFailure::Status(code)),
            Err(CallError::Transport { .. }) => Err(LoginFailure::Transport),
        }
    }

    /// Why a login failed with `error`.
    pub open spec fn failure_of(error: ImmichError) -> LoginFailure {
        match error {
            ImmichError::Status(code, _) => LoginFailure::Status(code),
            ImmichError::Transport(_) => LoginFailure::Transport,
            ImmichError::Io { .. } => LoginFailure::Unreadable,
            _ => LoginFailure::Refused,
        }
    }

    /// The server at `url`; `InvalidUrl` where `url` is no base URL.
    pub fn new(url: &str) -> (r: Result<Self, ImmichError>)
        ensures
            match Self::new_spec(url@) {
                Some(u) => r matches Ok(host) && host.url_spec() == u,
                None => r matches Err(ImmichError::InvalidUrl(_)),
            },
    {
        match Url::try_from(url) {
            Ok(url) => Ok(Host { url }),
            Err(e) => Err(e),
        }
    }

    /// The request that logs `username` in with `password`, and what it sends.
    pub fn email_request(&self, username: &str, password: &str) -> (r: (Request, Credentials))
        ensures
            r.0.method_spec() == Method::Post,
            r.0.url_spec() == joined(self.url_spec(), "/auth/login"@),
            r.0.headers_spec() == default_headers(),
            r.1.email@ == username@,
            r.1.password@ == password@,
    {
        let request = Request::new(Method::Post, self.url.add_path("/auth/login"))
            .add_default_header();
        (request, Credentials { email: username.to_owned(), password: password.to_owned() })
    }

    /// The client that the reply to a login gives. Status 201 with a body that holds
    /// the token of the session gives a client that proves who it is by the cookie of
    /// that token. Another status is `Auth`; a body that cannot be read is `Io`; a
    /// request without an answer is what `ImmichError::from` makes of it.
    pub fn email(self, reply: Reply<Login>) -> (r: Result<Client, ImmichError>)
        ensures
            match Self::email_spec(reply) {
                Ok(cookie) => {
                    &&& r matches Ok(client)
                    &&& client.url_spec() == self.url_spec()
                    &&& client.auth_spec() matches Authenticated::Cookie(c)
                    &&& c@ == cookie
                },
                Err(e) => r matches Err(error) && Self::failure_of(error) == e,
            },
            reply matches Ok(response) && response.status != 201 ==> r matches Err(
                ImmichError::Auth,
            ),
    {
        match reply {
            Ok(response) => {
                if response.status == 201 {
                    match response.json {
                        Some(login) => {
                            let mut cookie = "immich_access_token=".to_owned();
                            cookie.append(login.access_token.as_str());
                            Ok(Client::new(self.url, Authenticated::Cookie(cookie)))
                        },
                        None => Err(ImmichError::unreadable_body()),
                    }
                } else {
                    Err(ImmichError::Auth)
                }
            },
            Err(error) => Err(ImmichError::from(error)),
        }
    }

    /// The client that proves who it is by `key`, where the reply to the probe with
    /// that key (see `Client::check_auth`) has status 200; else `Auth`.
    pub fn key<T>(self, key: &str, reply: &Reply<T>) -> (r: Result<Client, ImmichError>)
        ensures
            if Client::accepted(reply) {
                &&& r matches Ok(client)
                &&& client.url_spec() == self.url_spec()
                &&& client.auth_spec() matches Authenticated::ApiKey(k)
                &&& k@ == key@
            } else {
                r matches Err(ImmichError::Auth)
            },
    {
        let auth = Authenticated::ApiKey(key.to_owned());
        let client = Client::new(self.url, auth);
        if Client::check_auth(reply) {
            Ok(client)
        } else {
            Err(ImmichError::Auth)
        }
    }

    /// The client that is to prove who it is by `key`, before the server was asked
    /// whether it accepts the key.
    pub fn key_client(&self, key: &str) -> (r: Client)
        ensures
            r.url_spec() == self.url_spec(),
            r.auth_spec() matches Authenticated::ApiKey(k) && k@ == key@,
    {
        Client::new(self.url.clone(), Authenticated::ApiKey(key.to_owned()))
    }
}

} // verus!
