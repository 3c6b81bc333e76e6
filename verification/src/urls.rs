//! What the library reads of a URL, computed by the `url` crate.
//!
//! The URL grammar is the `url` crate's (WHATWG URL standard); the library
//! never re-implements it. Each function below parses its textual input with
//! `url::Url::parse` and hands back plain values. What the crate computes is
//! named by an uninterpreted spec function of the input text, so that the
//! contracts of the callers can say exactly which parse result they act on.

use vstd::prelude::*;

use crate::text::opt_text;

verus! {

/// Whether `url::Url::parse` accepts `input` as an absolute URL.
pub uninterp spec fn url_parses(input: Seq<char>) -> bool;

/// `Url::scheme` of the URL parsed from `input`.
pub uninterp spec fn url_scheme(input: Seq<char>) -> Seq<char>;

/// `Url::host_str` of the URL parsed from `input`.
pub uninterp spec fn url_host(input: Seq<char>) -> Option<Seq<char>>;

/// `Url::path` of the URL parsed from `input`.
pub uninterp spec fn url_path(input: Seq<char>) -> Seq<char>;

/// `Url::fragment` of the URL parsed from `input`.
pub uninterp spec fn url_fragment(input: Seq<char>) -> Option<Seq<char>>;

/// The decoded `(key, value)` pairs of `Url::query_pairs` of the URL parsed from `input`.
pub uninterp spec fn url_query_pairs(input: Seq<char>) -> Seq<(Seq<char>, Seq<char>)>;

/// The serialization of the URL parsed from `input` after `set_fragment(None)`.
pub uninterp spec fn url_without_fragment(input: Seq<char>) -> Seq<char>;

/// The serialization of the URL parsed from `input` after `set_fragment(Some(fragment))`.
pub uninterp spec fn url_with_fragment(input: Seq<char>, fragment: Seq<char>) -> Seq<char>;

/// The serialization of the URL parsed from `input` after `set_path(path)`.
pub uninterp spec fn url_with_path(input: Seq<char>, path: Seq<char>) -> Seq<char>;

/// `Url::join(reference)` on the URL parsed from `base`, serialized; `None` when it fails.
pub uninterp spec fn url_join(base: Seq<char>, reference: Seq<char>) -> Option<Seq<char>>;

/// The parts of a parsed URL that the library reads.
pub struct UrlParts {
    pub scheme: String,
    pub host: Option<String>,
    pub path: String,
    pub fragment: Option<String>,
}

/// Parses `input` with `url::Url::parse` and reads its scheme, host, path and
/// fragment. Trusted: the result is `None` exactly when the crate refuses the
/// input, and otherwise holds the crate's accessors, named above.
#[verifier::external_body]
pub(crate) fn parse_url(input: &str) -> (r: Option<UrlParts>)
    ensures
        r is Some == url_parses(input@),
        r matches Some(p) ==> {
            &&& p.scheme@ == url_scheme(input@)
            &&& opt_text(p.host) == url_host(input@)
            &&& p.path@ == url_path(input@)
            &&& opt_text(p.fragment) == url_fragment(input@)
        },
{
    let url = url::Url::parse(input).ok()?;
    Some(
        UrlParts {
            scheme: url.scheme().to_owned(),
            host: url.host_str().map(str::to_owned),
            path: url.path().to_owned(),
            fragment: url.fragment().map(str::to_owned),
        },
    )
}

/// The characters of each `(key, value)` pair.
pub open spec fn pair_chars(pairs: Seq<(String, String)>) -> Seq<(Seq<char>, Seq<char>)> {
    pairs.map_values(|p: (String, String)| (p.0@, p.1@))
}

/// Parses `input` with `url::Url::parse` and collects `Url::query_pairs`, in
/// order. Trusted: the pairs are the crate's, named `url_query_pairs`; an input
/// that does not parse gives no pairs.
#[verifier::external_body]
pub(crate) fn query_pairs(input: &str) -> (r: Vec<(String, String)>)
    ensures
        url_parses(input@) ==> pair_chars(r@) == url_query_pairs(input@),
        !url_parses(input@) ==> r@.len() == 0,
{
    match url::Url::parse(input) {
        Ok(url) => url.query_pairs().map(|(k, v)| (k.into_owned(), v.into_owned())).collect(),
        Err(_) => Vec::new(),
    }
}

/// Parses `input`, removes its fragment with `Url::set_fragment(None)` and
/// serializes it. Trusted: `None` exactly when the input does not parse.
#[verifier::external_body]
pub(crate) fn without_fragment(input: &str) -> (r: Option<String>)
    ensures
        r is Some == url_parses(input@),
        r matches Some(s) ==> s@ == url_without_fragment(input@),
{
    let mut url = url::Url::parse(input).ok()?;
    url.set_fragment(None);
    Some(url.into())
}

/// Parses `input`, sets its fragment with `Url::set_fragment(Some(fragment))`
/// and serializes it. Trusted: `None` exactly when the input does not parse.
/// `set_fragment` panics when the serialization before the fragment passes
/// `u32::MAX` bytes; the bound in `requires` keeps the inputs far below that.
#[verifier::external_body]
pub(crate) fn with_fragment(input: &str, fragment: &str) -> (r: Option<String>)
    requires
        input@.len() < 0x1000_0000,
    ensures
        r is Some == url_parses(input@),
        r matches Some(s) ==> s@ == url_with_fragment(input@, fragment@),
{
    let mut url = url::Url::parse(input).ok()?;
    url.set_fragment(Some(fragment));
    Some(url.into())
}

/// Parses `input`, replaces its path with `Url::set_path(path)` and serializes
/// it. Trusted: `None` exactly when the input does not parse. `set_path` panics
/// when the new serialization passes `u32::MAX` bytes; the bound in `requires`
/// keeps the inputs far below that.
#[verifier::external_body]
pub(crate) fn with_path(input: &str, path: &str) -> (r: Option<String>)
    requires
        input@.len() + path@.len() < 0x1000_0000,
    ensures
        r is Some == url_parses(input@),
        r matches Some(s) ==> s@ == url_with_path(input@, path@),
{
    let mut url = url::Url::parse(input).ok()?;
    url.set_path(path);
    Some(url.into())
}

/// Parses `base` and resolves `reference` against it with `Url::join`.
/// Trusted: `None` when `base` does not parse; otherwise the crate's result,
/// named `url_join`.
#[verifier::external_body]
pub(crate) fn join(base: &str, reference: &str) -> (r: Option<String>)
    ensures
        !url_parses(base@) ==> r is None,
        url_parses(base@) ==> opt_text(r) == url_join(base@, reference@),
{
    let url = url::Url::parse(base).ok()?;
    url.join(reference).ok().map(String::from)
}


/// Parses `input` and converts it with `Url::to_file_path` to a local path,
/// given as text. Trusted: `None` when the input does not parse. What the path
/// is for a given URL is left unsaid: the conversion depends on the operating
/// system (on Windows a host becomes a share name); a path that is not valid
/// Unicode also gives `None`.
#[verifier::external_body]
pub(crate) fn file_path_of(input: &str) -> (r: Option<String>)
    ensures
        r is Some ==> url_parses(input@),
{
    let url = url::Url::parse(input).ok()?;
    let path = url.to_file_path().ok()?;
    path.to_str().map(str::to_owned)
}

} // verus!
