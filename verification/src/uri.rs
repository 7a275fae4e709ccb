//! URIs: which of them name a local file, and its path; and whether text
//! typed into the location bar is the address of a remote share.

use crate::text::{chars_of, opt_string_view, str_eq, string_from_chars, trim, trim_chars};
use vstd::prelude::*;

verus! {

/// `url::Url`, held only as parsed from a string.
#[verifier::external_type_specification]
#[verifier::external_body]
pub struct ExUrl(url::Url);

/// Whether `url::Url` parses `uri`.
pub uninterp spec fn uri_parses(uri: Seq<char>) -> bool;

/// The scheme of `uri` once `url::Url` has parsed it, in lower case.
pub uninterp spec fn uri_scheme(uri: Seq<char>) -> Seq<char>;

/// The local path `url::Url::to_file_path` gives for `uri` once parsed;
/// none when the URL has a host other than `localhost`, or its path does not
/// decode to one.
pub uninterp spec fn uri_file_path(uri: Seq<char>) -> Option<Seq<char>>;

/// A URI together with what `url` parsed of it.
pub struct ParsedUri {
    text: String,
    url: url::Url,
}

impl ParsedUri {
    /// The URI that was parsed.
    pub closed spec fn text(&self) -> Seq<char> {
        self.text@
    }
}

/// `uri` parsed, by `url::Url`'s `FromStr`.
#[verifier::external_body]
fn parse_uri(uri: &str) -> (r: Option<ParsedUri>)
    ensures
        r is Some == uri_parses(uri@),
        r matches Some(p) ==> p.text() == uri@,
{
    match uri.parse::<url::Url>() {
        Ok(url) => Some(ParsedUri { text: uri.to_owned(), url }),
        Err(_) => None,
    }
}

/// The scheme of a parsed URI, by `url::Url::scheme`.
#[verifier::external_body]
fn scheme(p: &ParsedUri) -> (r: String)
    ensures
        r@ == uri_scheme(p.text()),
{
    p.url.scheme().to_owned()
}

/// The local path of a parsed URI, by `url::Url::to_file_path`; a path that
/// is not valid UTF-8 counts as none.
#[verifier::external_body]
fn file_path(p: &ParsedUri) -> (r: Option<String>)
    ensures
        opt_string_view(r) == uri_file_path(p.text()),
{
    match p.url.to_file_path() {
        Ok(path) => path.into_os_string().into_string().ok(),
        Err(()) => None,
    }
}

/// The local path a URI names: a `file:` URI gives its path; any other URI,
/// or text that is no URI, gives none.
pub fn uri_to_path(uri: String) -> (r: Option<String>)
    ensures
        opt_string_view(r) == (if uri_parses(uri@) && uri_scheme(uri@) == "file"@ {
            uri_file_path(uri@)
        } else {
            None
        }),
{
    let parsed = match parse_uri(uri.as_str()) {
        Some(p) => p,
        None => return None,
    };
    let s = scheme(&parsed);
    if str_eq(s.as_str(), "file") {
        file_path(&parsed)
    } else {
        None
    }
}

/// Whether `url::Url` finds a host in `uri` once parsed.
pub uninterp spec fn uri_has_host(uri: Seq<char>) -> bool;

/// `uri` as `url::Url` writes it out again once parsed.
pub uninterp spec fn uri_serialized(uri: Seq<char>) -> Seq<char>;

/// Whether a parsed URI has a host, by `url::Url::has_host`.
#[verifier::external_body]
fn has_host(p: &ParsedUri) -> (r: bool)
    ensures
        r == uri_has_host(p.text()),
{
    p.url.has_host()
}

/// A parsed URI written out, by `url::Url::as_str`.
#[verifier::external_body]
fn serialized(p: &ParsedUri) -> (r: String)
    ensures
        r@ == uri_serialized(p.text()),
{
    p.url.as_str().to_owned()
}

/// What text typed into the location bar reads as.
#[derive(Debug, PartialEq, Eq)]
pub enum TypedUri {
    /// The address of something remote: a URL with a host, in a scheme
    /// other than `file`, written out as `url` writes it.
    Remote(String),
    /// A URL of something local: a `file:` URL, or one without a host.
    Local,
    /// No URL at all.
    NotUri,
}

/// What `typed` reads as, its surrounding white space aside.
pub open spec fn typed_uri_spec(typed: Seq<char>) -> Option<Option<Seq<char>>> {
    let t = trim(typed);
    if !uri_parses(t) {
        None
    } else if uri_scheme(t) != "file"@ && uri_has_host(t) {
        Some(Some(uri_serialized(t)))
    } else {
        Some(None)
    }
}

/// Reads `typed` as a URL, its surrounding white space aside: see
/// [`TypedUri`].
pub fn read_typed(typed: &str) -> (r: TypedUri)
    ensures
        match r {
            TypedUri::Remote(s) => typed_uri_spec(typed@) == Some(Some(s@)),
            TypedUri::Local => typed_uri_spec(typed@) == Some(None::<Seq<char>>),
            TypedUri::NotUri => typed_uri_spec(typed@) is None,
        },
{
    let cs = chars_of(typed);
    let t = string_from_chars(trim_chars(cs.as_slice()).as_slice());
    let parsed = match parse_uri(t.as_str()) {
        Some(p) => p,
        None => return TypedUri::NotUri,
    };
    let s = scheme(&parsed);
    if !str_eq(s.as_str(), "file") && has_host(&parsed) {
        TypedUri::Remote(serialized(&parsed))
    } else {
        TypedUri::Local
    }
}

} // verus!
