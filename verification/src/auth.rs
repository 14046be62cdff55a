use vstd::prelude::*;

verus! {

/// What a login sends: the address and the password of the user.
#[derive(Debug)]
pub struct Credentials {
    pub email: String,
    pub password: String,
}

/// What the server answers to a login: the token of the session.
#[derive(Debug)]
pub struct Login {
    pub access_token: String,
}

/// How a client proves to the server who it is.
#[derive(Debug)]
pub enum Authenticated {
    /// The cookie that a login with email and password gave.
    Cookie(String),
    /// An API key.
    ApiKey(String),
}

impl Clone for Authenticated {
    fn clone(&self) -> (r: Self)
        ensures
            r == *self,
    {
        match self {
            Authenticated::Cookie(cookie) => Authenticated::Cookie(cookie.clone()),
            Authenticated::ApiKey(key) => Authenticated::ApiKey(key.clone()),
        }
    }
}

impl Authenticated {
    /// The name of the header that carries the proof.
    pub open spec fn header_name(&self) -> Seq<char> {
        match self {
            Authenticated::Cookie(_) => "Cookie"@,
            Authenticated::ApiKey(_) => "x-api-key"@,
        }
    }

    /// The value of the header that carries the proof.
    pub open spec fn header_value(&self) -> Seq<char> {
        match self {
            Authenticated::Cookie(cookie) => cookie@,
            Authenticated::ApiKey(key) => key@,
        }
    }

    /// The header that carries the proof: its name and its value.
    pub fn header(&self) -> (r: (&str, &str))
        ensures
            r.0@ == self.header_name(),
            r.1@ == self.header_value(),
    {
        match self {
            Authenticated::Cookie(cookie) => ("Cookie", cookie.as_str()),
            Authenticated::ApiKey(key) => ("x-api-key", key.as_str()),
        }
    }
}

} // verus!
