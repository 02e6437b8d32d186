//! Absolute URLs as the address field sees them: a serialization, a scheme and a host.

use crate::text::hex_upper;
use vstd::prelude::*;

verus! {

/// What the address field reads of a URL.
pub struct UrlView {
    /// The whole URL as text.
    pub serialization: Seq<char>,
    /// The scheme, without the colon.
    pub scheme: Seq<char>,
    /// The host, where the URL has one.
    pub host: Option<Seq<char>>,
}

/// A parsed absolute URL.
#[derive(Debug)]
pub struct Url {
    serialization: String,
    scheme: String,
    host: Option<String>,
}

impl View for Url {
    type V = UrlView;

    closed spec fn view(&self) -> UrlView {
        UrlView {
            serialization: self.serialization@,
            scheme: self.scheme@,
            host: match self.host {
                Some(h) => Some(h@),
                None => None,
            },
        }
    }
}

/// The view of an optional URL.
pub open spec fn opt_view(u: Option<Url>) -> Option<UrlView> {
    match u {
        Some(u) => Some(u@),
        None => None,
    }
}

/// What parsing `input` as an absolute URL gives: the parsed URL, or `None` where `input` is
/// not one.
pub uninterp spec fn parsed(input: Seq<char>) -> Option<UrlView>;

/// A byte that form encoding leaves as it is.
pub open spec fn form_unchanged(b: u8) -> bool {
    ||| b == 0x2A
    ||| b == 0x2D
    ||| b == 0x2E
    ||| 0x30 <= b <= 0x39
    ||| 0x41 <= b <= 0x5A
    ||| b == 0x5F
    ||| 0x61 <= b <= 0x7A
}

/// The form encoding of one byte.
pub open spec fn form_encoded_byte(b: u8) -> Seq<char> {
    if form_unchanged(b) {
        seq![b as char]
    } else if b == 0x20 {
        seq!['+']
    } else {
        seq!['%', hex_upper(b / 16), hex_upper(b % 16)]
    }
}

/// The `application/x-www-form-urlencoded` serialization of `bytes`.
pub open spec fn form_encoded(bytes: Seq<u8>) -> Seq<char>
    decreases bytes.len(),
{
    if bytes.len() == 0 {
        Seq::empty()
    } else {
        form_encoded(bytes.drop_last()) + form_encoded_byte(bytes.last())
    }
}

/// `url::Url::parse`, with the serialization, the scheme and the host of the URL it returns
/// (`Url::as_str`, `Url::scheme`, `Url::host_str`). The outcome is named, not described: it is
/// `parsed` of the input, `None` standing for a parse error.
#[verifier::external_body]
fn parse_absolute(input: &str) -> (r: Option<Url>)
    ensures
        opt_view(r) == parsed(input@),
{
    match url::Url::parse(input) {
        Ok(u) => Some(
            Url {
                serialization: u.as_str().to_string(),
                scheme: u.scheme().to_string(),
                host: u.host_str().map(|h| h.to_string()),
            },
        ),
        Err(_) => None,
    }
}

/// `url::form_urlencoded::byte_serialize`, collected into one string: letters, digits and
/// `*-._` stay, a space becomes `+`, every other byte becomes `%` and two upper-case
/// hexadecimal digits.
#[verifier::external_body]
pub(crate) fn form_urlencode(input: &[u8]) -> (r: String)
    ensures
        r@ == form_encoded(input@),
{
    url::form_urlencoded::byte_serialize(input).collect()
}

impl Url {
    /// Parses `input` as an absolute URL.
    pub fn parse(input: &str) -> (r: Option<Url>)
        ensures
            opt_view(r) == parsed(input@),
    {
        parse_absolute(input)
    }

    /// A URL from its parts, as a parser gave them.
    pub fn from_parts(serialization: String, scheme: String, host: Option<String>) -> (u: Url)
        ensures
            u@.serialization == serialization@,
            u@.scheme == scheme@,
            u@.host == match host {
                Some(h) => Some(h@),
                None => None,
            },
    {
        Url { serialization, scheme, host }
    }

    /// The whole URL as text.
    pub fn as_str(&self) -> (s: &str)
        ensures
            s@ == self@.serialization,
    {
        self.serialization.as_str()
    }

    /// The scheme, without the colon.
    pub fn scheme(&self) -> (s: &str)
        ensures
            s@ == self@.scheme,
    {
        self.scheme.as_str()
    }

    /// The host, where the URL has one.
    pub fn host_str(&self) -> (h: Option<&str>)
        ensures
            match h {
                Some(h) => self@.host == Some(h@),
                None => self@.host is None,
            },
    {
        match &self.host {
            Some(h) => Some(h.as_str()),
            None => None,
        }
    }
}

impl Clone for Url {
    fn clone(&self) -> (r: Url)
        ensures
            r@ == self@,
    {
        Url {
            serialization: self.serialization.clone(),
            scheme: self.scheme.clone(),
            host: match &self.host {
                Some(h) => Some(h.clone()),
                None => None,
            },
        }
    }
}

} // verus!
