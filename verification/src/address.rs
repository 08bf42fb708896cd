//! URLs as the shell reads them, through the `url` crate.
//!
//! A [`WebUrl`] is a parsed URL together with its serialization. Everything the
//! library knows about a URL is stated over that serialization: the `url` crate
//! parses a string into components and writes them back out as one canonical
//! string, and each component is determined by that string.

use vstd::prelude::*;
use crate::text::{opt_chars, owned};

verus! {

#[verifier::external_type_specification]
#[verifier::external_body]
pub struct ExUrl(url::Url);

/// The serialization of `Url::parse(input)`, or `None` when it fails.
pub uninterp spec fn parsed_url(input: Seq<char>) -> Option<Seq<char>>;

/// The message of the error `Url::parse(input)` fails with.
pub uninterp spec fn url_parse_error(input: Seq<char>) -> Seq<char>;

/// The serialization of `base.join(input)` for the URL serialized as `base`,
/// or `None` when it fails.
pub uninterp spec fn joined_url(base: Seq<char>, input: Seq<char>) -> Option<Seq<char>>;

/// The message of the error `base.join(input)` fails with.
pub uninterp spec fn url_join_error(base: Seq<char>, input: Seq<char>) -> Seq<char>;

/// The serialization after `set_query(query)` on the URL serialized as `url`.
pub uninterp spec fn url_with_query(url: Seq<char>, query: Option<Seq<char>>) -> Seq<char>;

/// The serialization after `set_fragment(fragment)` on the URL serialized as `url`.
pub uninterp spec fn url_with_fragment(url: Seq<char>, fragment: Option<Seq<char>>) -> Seq<char>;

/// `scheme()` of the URL serialized as `url`.
pub uninterp spec fn url_scheme(url: Seq<char>) -> Seq<char>;

/// `host_str()` of the URL serialized as `url`.
pub uninterp spec fn url_host(url: Seq<char>) -> Option<Seq<char>>;

/// `port_or_known_default()` of the URL serialized as `url`.
pub uninterp spec fn url_port(url: Seq<char>) -> Option<u16>;

/// `path()` of the URL serialized as `url`.
pub uninterp spec fn url_path(url: Seq<char>) -> Seq<char>;

/// `query()` of the URL serialized as `url`.
pub uninterp spec fn url_query(url: Seq<char>) -> Option<Seq<char>>;

/// `fragment()` of the URL serialized as `url`.
pub uninterp spec fn url_fragment(url: Seq<char>) -> Option<Seq<char>>;

/// An absolute URL and its serialization.
///
/// Only the functions of this module build one, always from a `url::Url` and
/// that URL's own `as_str()`, so the two fields describe the same URL.
#[derive(Debug)]
pub struct WebUrl {
    inner: url::Url,
    serialization: String,
}

impl View for WebUrl {
    type V = Seq<char>;

    /// The URL's serialization.
    closed spec fn view(&self) -> Seq<char> {
        self.serialization@
    }
}

/// Parses an absolute URL.
///
/// Calls `url::Url::parse`; the contract names its result by the input, and
/// names the error message likewise.
#[verifier::external_body]
fn url_parse(input: &str) -> (r: Result<WebUrl, String>)
    ensures
        r is Ok <==> parsed_url(input@) is Some,
        r matches Ok(u) ==> u@ == parsed_url(input@).unwrap(),
        r matches Err(e) ==> e@ == url_parse_error(input@),
{
    match url::Url::parse(input) {
        Ok(u) => Ok(WebUrl { serialization: u.as_str().to_string(), inner: u }),
        Err(e) => Err(e.to_string()),
    }
}

/// Resolves `input` against `base`.
///
/// Calls `url::Url::join`; the contract names its result by the base URL and the
/// input, and names the error message likewise.
#[verifier::external_body]
fn url_join(base: &WebUrl, input: &str) -> (r: Result<WebUrl, String>)
    ensures
        r is Ok <==> joined_url(base@, input@) is Some,
        r matches Ok(u) ==> u@ == joined_url(base@, input@).unwrap(),
        r matches Err(e) ==> e@ == url_join_error(base@, input@),
{
    match base.inner.join(input) {
        Ok(u) => Ok(WebUrl { serialization: u.as_str().to_string(), inner: u }),
        Err(e) => Err(e.to_string()),
    }
}

/// Replaces the query. Calls `url::Url::set_query`, which writes `?` and the
/// encoded query when it is given one and clears the query otherwise: the URL
/// has a query afterwards exactly when one was given.
#[verifier::external_body]
fn url_set_query(u: &mut WebUrl, query: Option<&str>)
    ensures
        final(u)@ == url_with_query(old(u)@, match query {
            Some(q) => Some(q@),
            None => None,
        }),
        url_query(final(u)@) is Some <==> query is Some,
{
    u.inner.set_query(query);
    u.serialization = u.inner.as_str().to_string();
}

/// Replaces the fragment. Calls `url::Url::set_fragment`, which cuts the URL
/// at the old fragment, then writes `#` and the encoded fragment when it is
/// given one: the URL has a fragment afterwards exactly when one was given, and
/// its query, which comes before the fragment, is left as it was.
#[verifier::external_body]
fn url_set_fragment(u: &mut WebUrl, fragment: Option<&str>)
    ensures
        final(u)@ == url_with_fragment(old(u)@, match fragment {
            Some(f) => Some(f@),
            None => None,
        }),
        url_fragment(final(u)@) is Some <==> fragment is Some,
        url_query(final(u)@) == url_query(old(u)@),
{
    u.inner.set_fragment(fragment);
    u.serialization = u.inner.as_str().to_string();
}

/// The scheme. Calls `url::Url::scheme`.
#[verifier::external_body]
fn url_scheme_of(u: &WebUrl) -> (r: String)
    ensures
        r@ == url_scheme(u@),
{
    u.inner.scheme().to_string()
}

/// The host, when there is one. Calls `url::Url::host_str`.
#[verifier::external_body]
fn url_host_of(u: &WebUrl) -> (r: Option<String>)
    ensures
        opt_chars(r) == url_host(u@),
{
    u.inner.host_str().map(|h| h.to_string())
}

/// The port, or the scheme's known default. Calls `url::Url::port_or_known_default`.
#[verifier::external_body]
fn url_port_of(u: &WebUrl) -> (r: Option<u16>)
    ensures
        r == url_port(u@),
{
    u.inner.port_or_known_default()
}

/// The path. Calls `url::Url::path`.
#[verifier::external_body]
fn url_path_of(u: &WebUrl) -> (r: String)
    ensures
        r@ == url_path(u@),
{
    u.inner.path().to_string()
}

/// The query, when there is one. Calls `url::Url::query`.
#[verifier::external_body]
fn url_query_of(u: &WebUrl) -> (r: Option<String>)
    ensures
        opt_chars(r) == url_query(u@),
{
    u.inner.query().map(|q| q.to_string())
}

/// The fragment, when there is one. Calls `url::Url::fragment`.
#[verifier::external_body]
fn url_fragment_of(u: &WebUrl) -> (r: Option<String>)
    ensures
        opt_chars(r) == url_fragment(u@),
{
    u.inner.fragment().map(|f| f.to_string())
}

/// Two URLs share scheme, host and port (the explicit port, or the scheme's default).
pub open spec fn same_origin(a: Seq<char>, b: Seq<char>) -> bool {
    &&& url_scheme(a) == url_scheme(b)
    &&& url_host(a) == url_host(b)
    &&& url_port(a) == url_port(b)
}

fn strings_equal(a: &String, b: &String) -> (r: bool)
    ensures
        r == (a@ == b@),
{
    *a == *b
}

fn opt_strings_equal(a: &Option<String>, b: &Option<String>) -> (r: bool)
    ensures
        r == (opt_chars(*a) == opt_chars(*b)),
{
    match (a, b) {
        (Some(x), Some(y)) => strings_equal(x, y),
        (None, None) => true,
        _ => false,
    }
}

impl WebUrl {
    /// Parses an absolute URL, or returns the parser's error message.
    pub fn parse(input: &str) -> (r: Result<WebUrl, String>)
        ensures
            r is Ok <==> parsed_url(input@) is Some,
            r matches Ok(u) ==> u@ == parsed_url(input@).unwrap(),
            r matches Err(e) ==> e@ == url_parse_error(input@),
    {
        url_parse(input)
    }

    /// The URL as a string.
    pub fn as_str(&self) -> (s: &str)
        ensures
            s@ == self@,
    {
        self.serialization.as_str()
    }

    /// The scheme, such as `https`.
    pub fn scheme(&self) -> (r: String)
        ensures
            r@ == url_scheme(self@),
    {
        url_scheme_of(self)
    }

    /// The host, when the URL has one.
    pub fn host_str(&self) -> (r: Option<String>)
        ensures
            opt_chars(r) == url_host(self@),
    {
        url_host_of(self)
    }

    /// The port, or the scheme's default port when none is written.
    pub fn port_or_known_default(&self) -> (r: Option<u16>)
        ensures
            r == url_port(self@),
    {
        url_port_of(self)
    }

    /// The path.
    pub fn path(&self) -> (r: String)
        ensures
            r@ == url_path(self@),
    {
        url_path_of(self)
    }

    /// The query, when there is one.
    pub fn query(&self) -> (r: Option<String>)
        ensures
            opt_chars(r) == url_query(self@),
    {
        url_query_of(self)
    }

    /// The fragment, when there is one.
    pub fn fragment(&self) -> (r: Option<String>)
        ensures
            opt_chars(r) == url_fragment(self@),
    {
        url_fragment_of(self)
    }

    /// Resolves `input` against this URL, or returns the parser's error message.
    pub fn join(&self, input: &str) -> (r: Result<WebUrl, String>)
        ensures
            r is Ok <==> joined_url(self@, input@) is Some,
            r matches Ok(u) ==> u@ == joined_url(self@, input@).unwrap(),
            r matches Err(e) ==> e@ == url_join_error(self@, input@),
    {
        url_join(self, input)
    }

    /// Replaces the query.
    pub fn set_query(&mut self, query: Option<&str>)
        ensures
            final(self)@ == url_with_query(old(self)@, match query {
                Some(q) => Some(q@),
                None => None,
            }),
            url_query(final(self)@) is Some <==> query is Some,
    {
        url_set_query(self, query)
    }

    /// Replaces the fragment.
    pub fn set_fragment(&mut self, fragment: Option<&str>)
        ensures
            final(self)@ == url_with_fragment(old(self)@, match fragment {
                Some(f) => Some(f@),
                None => None,
            }),
            url_fragment(final(self)@) is Some <==> fragment is Some,
            url_query(final(self)@) == url_query(old(self)@),
    {
        url_set_fragment(self, fragment)
    }

    /// Whether the two URLs share scheme, host and port.
    pub fn same_origin_as(&self, other: &WebUrl) -> (b: bool)
        ensures
            b == same_origin(self@, other@),
    {
        let s1 = self.scheme();
        let s2 = other.scheme();
        if !strings_equal(&s1, &s2) {
            return false;
        }
        let h1 = self.host_str();
        let h2 = other.host_str();
        if !opt_strings_equal(&h1, &h2) {
            return false;
        }
        self.port_or_known_default() == other.port_or_known_default()
    }
}

} // verus!
