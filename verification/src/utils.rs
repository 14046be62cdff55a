use vstd::prelude::*;
use vstd::std_specs::convert::FromSpecImpl;
use crate::http::{CallError, Response};
use crate::takeout::ParseError;
use crate::text::{append_chars, chars_of, decimal_text, push_decimal, str_eq, string_of};

verus! {

/// The name under which this client introduces itself to the server.
pub fn client_name() -> (s: &'static str)
    ensures
        s@ == "Immich-0.1 (Rust Client)"@,
{
    "Immich-0.1 (Rust Client)"
}

/// What can go wrong in this crate.
#[derive(Debug)]
pub enum ImmichError {
    /// Unable to authenticate to the server, or the authentication expired.
    Auth,
    /// The server answered with this HTTP status and text.
    Status(u16, String),
    /// The connection failed.
    Transport(String),
    /// Reading from the file system or from an input stream failed.
    Io { reason: String },
    /// The URL given for a client, or put together for a request, is invalid.
    InvalidUrl(String),
    /// The server sent back a response that does not fit the request.
    InvalidResponse,
    /// The exchange between the threads of an upload broke down.
    Multithread,
    /// The given date is no date.
    InvalidDate,
    /// The given id has not the shape of an id.
    InvalidId,
    /// The Takeout archive cannot be read.
    InvalidTakeoutArchive,
}

/// What an operation of this crate gives.
pub type ImmichResult<T> = Result<T, ImmichError>;

impl From<CallError> for ImmichError {
    /// The error for a request that got no answer to work with: the status with its
    /// text, or what is known of why the connection failed.
    fn from(value: CallError) -> (r: Self)
        ensures
            match value {
                CallError::Status { code, status_text, .. } => r matches ImmichError::Status(c, t)
                    && c == code && t@ == status_text@,
                CallError::Transport { message: Some(m), .. } => r matches ImmichError::Transport(
                    t,
                ) && t@ == m@,
                CallError::Transport { message: None, .. } => r matches ImmichError::Transport(t)
                    && t@ == "Unknown connection error"@,
            },
    {
        match value {
            CallError::Status { code, status_text, .. } => ImmichError::Status(code, status_text),
            CallError::Transport { message: Some(m), .. } => ImmichError::Transport(m),
            CallError::Transport { message: None, .. } => ImmichError::Transport(
                "Unknown connection error".to_owned(),
            ),
        }
    }
}

impl FromSpecImpl<CallError> for ImmichError {
    /// What `from` makes is stated by `from` itself: the text of an error is not a
    /// value that a specification can make.
    open spec fn obeys_from_spec() -> bool {
        false
    }

    open spec fn from_spec(value: CallError) -> Self {
        arbitrary()
    }
}

impl From<ParseError> for ImmichError {
    /// Whatever went wrong while an archive was read, the archive cannot be read.
    fn from(value: ParseError) -> (r: Self)
        ensures
            r is InvalidTakeoutArchive,
    {
        ImmichError::InvalidTakeoutArchive
    }
}

impl FromSpecImpl<ParseError> for ImmichError {
    open spec fn obeys_from_spec() -> bool {
        true
    }

    open spec fn from_spec(value: ParseError) -> Self {
        ImmichError::InvalidTakeoutArchive
    }
}

impl ImmichError {
    /// The error for an answer with a status that the request did not expect: the status
    /// with its text.
    pub fn from_response<T>(response: &Response<T>) -> (r: Self)
        ensures
            r matches ImmichError::Status(c, t) && c == response.status && t@
                == response.status_text@,
    {
        ImmichError::Status(response.status, response.status_text.clone())
    }

    /// What the error says, in words.
    pub open spec fn message(&self) -> Seq<char> {
        match self {
            ImmichError::Auth => "Unable to authenticate or authentication expired"@,
            ImmichError::Status(code, text) => "Status: ["@ + decimal_text(*code as nat) + "] "@
                + text@,
            ImmichError::Transport(text) => "Error connecting: "@ + text@,
            ImmichError::Io { .. } => "IO error"@,
            ImmichError::InvalidUrl(text) => "Invalid URL: "@ + text@,
            ImmichError::InvalidResponse => "Invalid response from server"@,
            ImmichError::Multithread => "Error during multithread process"@,
            ImmichError::InvalidDate => "Invalid date"@,
            ImmichError::InvalidId => "Invalid ID"@,
            ImmichError::InvalidTakeoutArchive => "Unable to read Takeout archive"@,
        }
    }

    /// What the error says, in words.
    pub fn to_string(&self) -> (r: String)
        ensures
            r@ == self.message(),
    {
        match self {
            ImmichError::Auth => "Unable to authenticate or authentication expired".to_owned(),
            ImmichError::Status(code, text) => {
                let mut out = chars_of("Status: [");
                push_decimal(&mut out, *code);
                append_chars(&mut out, &chars_of("] "));
                append_chars(&mut out, &chars_of(text.as_str()));
                string_of(&out)
            },
            ImmichError::Transport(text) => {
                let mut out = chars_of("Error connecting: ");
                append_chars(&mut out, &chars_of(text.as_str()));
                string_of(&out)
            },
            ImmichError::Io { .. } => "IO error".to_owned(),
            ImmichError::InvalidUrl(text) => {
                let mut out = chars_of("Invalid URL: ");
                append_chars(&mut out, &chars_of(text.as_str()));
                string_of(&out)
            },
            ImmichError::InvalidResponse => "Invalid response from server".to_owned(),
            ImmichError::Multithread => "Error during multithread process".to_owned(),
            ImmichError::InvalidDate => "Invalid date".to_owned(),
            ImmichError::InvalidId => "Invalid ID".to_owned(),
            ImmichError::InvalidTakeoutArchive => "Unable to read Takeout archive".to_owned(),
        }
    }

    /// The error for an answer whose body cannot be read as what the request asked for.
    pub fn unreadable_body() -> (r: Self)
        ensures
            r matches ImmichError::Io { reason } && reason@ == "unreadable response body"@,
    {
        ImmichError::Io { reason: "unreadable response body".to_owned() }
    }
}

/// Whether `c` is alphanumeric as `char::is_alphanumeric` has it: a letter or a number of
/// any script.
pub uninterp spec fn alphanumeric(c: char) -> bool;

/// Whether `c` is one of the letters `a` to `z` and `A` to `Z` or of the digits `0` to
/// `9`.
pub open spec fn ascii_alphanumeric(c: char) -> bool {
    ('0' <= c && c <= '9') || ('A' <= c && c <= 'Z') || ('a' <= c && c <= 'z')
}

/// `char::is_alphanumeric`, whose answer `alphanumeric` names. Of the characters of
/// ASCII it holds for the letters and the digits and for nothing else.
#[verifier::external_body]
fn is_alphanumeric(c: char) -> (b: bool)
    ensures
        b == alphanumeric(c),
        (c as u32) < 128 ==> b == ascii_alphanumeric(c),
{
    c.is_alphanumeric()
}

/// Whether position `i` of an id holds a dash.
pub open spec fn dash_position(i: int) -> bool {
    i == 8 || i == 13 || i == 18 || i == 23
}

/// The shape of an id, where `letters` tells which of the characters are alphanumeric:
/// 36 characters, a dash at each of the positions 8, 13, 18 and 23, and an alphanumeric
/// character everywhere else.
pub open spec fn shaped(chars: Seq<char>, letters: Seq<bool>) -> bool {
    &&& chars.len() == 36
    &&& letters.len() == 36
    &&& forall|i: int| 0 <= i < 36 ==> #[trigger] fits_at(chars, letters, i)
}

/// Whether the character at position `i` is what the shape of an id wants there.
pub open spec fn fits_at(chars: Seq<char>, letters: Seq<bool>, i: int) -> bool {
    if dash_position(i) {
        chars[i] == '-'
    } else {
        letters[i]
    }
}

/// The shape of an id: 36 characters, a dash at each of the positions 8, 13, 18 and 23,
/// and an alphanumeric character everywhere else.
pub open spec fn safe_shape(s: Seq<char>) -> bool {
    shaped(s, s.map_values(|c: char| alphanumeric(c)))
}

/// Whether `s` holds characters of ASCII only.
pub open spec fn all_ascii(s: Seq<char>) -> bool {
    forall|i: int| 0 <= i < s.len() ==> (#[trigger] s[i] as u32) < 128
}

/// The shape of an id in ASCII: 36 characters, a dash at each of the positions 8, 13, 18
/// and 23, and a letter `a` to `z` or `A` to `Z` or a digit everywhere else.
pub open spec fn ascii_shape(s: Seq<char>) -> bool {
    shaped(s, s.map_values(|c: char| ascii_alphanumeric(c)))
}

/// An id has its shape exactly where it has 36 characters, of which those at the
/// positions 8, 13, 18 and 23 are dashes and all others are alphanumeric.
pub proof fn lemma_safe_shape(s: Seq<char>)
    ensures
        safe_shape(s) <==> s.len() == 36 && forall|i: int|
            0 <= i < 36 ==> if dash_position(i) {
                #[trigger] s[i] == '-'
            } else {
                alphanumeric(s[i])
            },
{
    let letters = s.map_values(|c: char| alphanumeric(c));
    if s.len() == 36 {
        assert forall|i: int| 0 <= i < 36 implies (fits_at(s, letters, i) <==> if dash_position(
            i,
        ) {
            #[trigger] s[i] == '-'
        } else {
            alphanumeric(s[i])
        }) by {}
        if safe_shape(s) {
            assert forall|i: int| 0 <= i < 36 implies if dash_position(i) {
                #[trigger] s[i] == '-'
            } else {
                alphanumeric(s[i])
            } by {
                assert(fits_at(s, letters, i));
            }
        }
    }
}

/// An identifier that the server gave out. Only one of the shape `safe_shape` is put into
/// the path of a URL.
#[derive(Debug)]
pub struct Id {
    id: String,
}

impl View for Id {
    type V = Seq<char>;

    closed spec fn view(&self) -> Seq<char> {
        self.id@
    }
}

impl Clone for Id {
    fn clone(&self) -> (r: Self)
        ensures
            r == *self,
    {
        Id { id: self.id.clone() }
    }
}

impl Default for Id {
    /// The empty id, which an asset has until the server gave it one.
    fn default() -> (r: Self)
        ensures
            r@ == Seq::<char>::empty(),
    {
        Id { id: String::new() }
    }
}

impl Id {
    /// An id of these characters, whatever their shape. It is for what the server sent;
    /// `try_from` is for what a user typed.
    pub fn new(id: String) -> (r: Self)
        ensures
            r@ == id@,
    {
        Id { id }
    }

    /// The characters of the id.
    pub fn as_str(&self) -> (s: &str)
        ensures
            s@ == self@,
    {
        self.id.as_str()
    }

    /// Whether characters, of which `letters` tells which are alphanumeric, have the
    /// shape of an id.
    pub fn fits_shape(chars: &Vec<char>, letters: &Vec<bool>) -> (b: bool)
        ensures
            b == shaped(chars@, letters@),
    {
        if chars.len() != 36 || letters.len() != 36 {
            return false;
        }
        let mut i: usize = 0;
        while i < 36
            invariant
                i <= 36,
                chars.len() == 36,
                letters.len() == 36,
                forall|j: int| 0 <= j < i ==> #[trigger] fits_at(chars@, letters@, j),
            decreases 36 - i,
        {
            let fits = if i == 8 || i == 13 || i == 18 || i == 23 {
                chars[i] == '-'
            } else {
                letters[i]
            };
            if !fits {
                assert(!fits_at(chars@, letters@, i as int));
                return false;
            }
            i += 1;
        }
        true
    }

    /// Whether the id has the shape of an id, so that it can stand in the path of a URL.
    /// For an id of ASCII the letters `a` to `z` and `A` to `Z` and the digits are the
    /// alphanumeric characters.
    pub fn is_safe(&self) -> (b: bool)
        ensures
            b == safe_shape(self@),
            all_ascii(self@) ==> b == ascii_shape(self@),
    {
        let chars = chars_of(self.id.as_str());
        let mut letters: Vec<bool> = Vec::new();
        let mut i: usize = 0;
        while i < chars.len()
            invariant
                i <= chars.len(),
                letters@ == chars@.take(i as int).map_values(|c: char| alphanumeric(c)),
                forall|j: int|
                    0 <= j < i && (chars@[j] as u32) < 128 ==> #[trigger] letters@[j]
                        == ascii_alphanumeric(chars@[j]),
            decreases chars.len() - i,
        {
            letters.push(is_alphanumeric(chars[i]));
            assert(chars@.take(i + 1) == chars@.take(i as int).push(chars@[i as int]));
            i += 1;
        }
        assert(chars@.take(chars.len() as int) == chars@);
        proof {
            if all_ascii(self@) {
                assert(letters@ =~= chars@.map_values(|c: char| ascii_alphanumeric(c)));
            }
        }
        Self::fits_shape(&chars, &letters)
    }

    /// The id with these characters, where they have the shape of an id.
    pub fn try_from(id: &str) -> (r: Result<Id, ImmichError>)
        ensures
            safe_shape(id@) ==> r is Ok && r->Ok_0@ == id@,
            !safe_shape(id@) ==> r is Err && r->Err_0 is InvalidId,
            all_ascii(id@) ==> (r is Ok <==> ascii_shape(id@)),
    {
        let x = Id { id: id.to_owned() };
        if x.is_safe() {
            Ok(x)
        } else {
            Err(ImmichError::InvalidId)
        }
    }

    /// The characters of the id, as a string of its own.
    pub fn to_string(&self) -> (r: String)
        ensures
            r@ == self@,
    {
        self.id.clone()
    }

    /// Whether the id has exactly the characters of `other`.
    pub fn eq(&self, other: &str) -> (b: bool)
        ensures
            b == (self@ == other@),
    {
        str_eq(self.id.as_str(), other)
    }
}

/// The owner of an asset or of an album on the server.
#[derive(Debug)]
pub struct User {
    id: Id,
    email: String,
    name: String,
}

impl User {
    /// A user as the server describes one.
    pub fn new(id: Id, email: String, name: String) -> (r: Self)
        ensures
            r.id_spec() == id,
            r.email_spec() == email@,
            r.name_spec() == name@,
    {
        User { id, email, name }
    }

    /// The id of the user on the server.
    pub closed spec fn id_spec(&self) -> Id {
        self.id
    }

    /// The address with which the user logs in.
    pub closed spec fn email_spec(&self) -> Seq<char> {
        self.email@
    }

    /// The user's name.
    pub closed spec fn name_spec(&self) -> Seq<char> {
        self.name@
    }

    /// The id of the user on the server.
    pub fn id(&self) -> (r: &Id)
        ensures
            *r == self.id_spec(),
    {
        &self.id
    }

    /// The address with which the user logs in.
    pub fn email(&self) -> (r: &str)
        ensures
            r@ == self.email_spec(),
    {
        self.email.as_str()
    }

    /// The user's name.
    pub fn name(&self) -> (r: &str)
        ensures
            r@ == self.name_spec(),
    {
        self.name.as_str()
    }

    /// The user in one line: the name, the address in angle brackets, the id in square
    /// brackets.
    pub fn to_string(&self) -> (r: String)
        ensures
            r@ == self.name_spec() + " <"@ + self.email_spec() + "> ["@ + self.id_spec()@ + "]"@,
    {
        let mut out = chars_of(self.name.as_str());
        append_chars(&mut out, &chars_of(" <"));
        append_chars(&mut out, &chars_of(self.email.as_str()));
        append_chars(&mut out, &chars_of("> ["));
        append_chars(&mut out, &chars_of(self.id.as_str()));
        append_chars(&mut out, &chars_of("]"));
        string_of(&out)
    }
}

impl Clone for User {
    fn clone(&self) -> (r: Self)
        ensures
            r == *self,
    {
        User { id: self.id.clone(), email: self.email.clone(), name: self.name.clone() }
    }
}

} // verus!
