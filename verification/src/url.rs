use vstd::prelude::*;
use crate::text::{append_chars, chars_of, matches_at, occurs_at, string_of};
use crate::utils::ImmichError;

verus! {

/// `s` without the slashes at its end.
pub open spec fn without_trailing_slashes(s: Seq<char>) -> Seq<char>
    decreases s.len(),
{
    if s.len() > 0 && s.last() == '/' {
        without_trailing_slashes(s.drop_last())
    } else {
        s
    }
}

/// Whether `s` begins with `https://` or with `http://`.
pub open spec fn has_web_scheme(s: Seq<char>) -> bool {
    occurs_at(s, "https://"@, 0) || occurs_at(s, "http://"@, 0)
}

/// `path` behind the base `url`. A path that does not begin with a slash is joined as
/// `[`, the base, a slash and the path.
pub open spec fn joined(url: Seq<char>, path: Seq<char>) -> Seq<char> {
    if path.len() > 0 && path[0] == '/' {
        url + path
    } else {
        seq!['['] + url + seq!['/'] + path
    }
}

/// The base URL of a server: it begins with `http://` or `https://` and does not end in
/// a slash.
#[derive(Debug)]
pub struct Url {
    url: String,
}

impl View for Url {
    type V = Seq<char>;

    closed spec fn view(&self) -> Seq<char> {
        self.url@
    }
}

impl Clone for Url {
    fn clone(&self) -> (r: Self)
        ensures
            r == *self,
    {
        Url { url: self.url.clone() }
    }
}

impl Url {
    /// The base URL `url` without the slashes at its end; `InvalidUrl` where what is left
    /// begins neither with `http://` nor with `https://`.
    pub fn try_from(url: &str) -> (r: Result<Url, ImmichError>)
        ensures
            has_web_scheme(without_trailing_slashes(url@)) ==> r is Ok && r->Ok_0@
                == without_trailing_slashes(url@),
            !has_web_scheme(without_trailing_slashes(url@)) ==> (r matches Err(
                ImmichError::InvalidUrl(m),
            ) && m@ == "Url must start with http or https"@),
    {
        let mut chars = chars_of(url);
        while chars.len() > 0 && chars[chars.len() - 1] == '/'
            invariant
                without_trailing_slashes(chars@) == without_trailing_slashes(url@),
            decreases chars.len(),
        {
            chars.pop();
        }
        let https = chars_of("https://");
        let http = chars_of("http://");
        if matches_at(&chars, &https, 0) || matches_at(&chars, &http, 0) {
            Ok(Url { url: string_of(&chars) })
        } else {
            Err(ImmichError::InvalidUrl("Url must start with http or https".to_owned()))
        }
    }

    /// The URL of `path` on this server.
    pub fn add_path(&self, path: &str) -> (r: String)
        ensures
            r@ == joined(self@, path@),
    {
        let path = chars_of(path);
        let mut out: Vec<char> = Vec::new();
        if path.len() > 0 && path[0] == '/' {
            append_chars(&mut out, &chars_of(self.url.as_str()));
            append_chars(&mut out, &path);
        } else {
            out.push('[');
            append_chars(&mut out, &chars_of(self.url.as_str()));
            out.push('/');
            append_chars(&mut out, &path);
        }
        string_of(&out)
    }
}

} // verus!
