//! What the app does with the URLs macOS hands it: Blip Bundles are opened in
//! the editor, and other links are imported as recording profiles.

use vstd::prelude::*;

use crate::text::{opt_text, owned, same_text};
use crate::upload::{has_extension, path_extension_spec};
use crate::urls::{file_path_of, parse_url, url_parses, url_scheme};

verus! {

/// What an opened URL is.
#[derive(Clone, Debug, PartialEq, Eq)]
pub enum OpenedUrl {
    /// A Blip Bundle at this path.
    Bundle(String),
    /// A link to import as a recording profile.
    ProfileLink(String),
}

/// The characters of an [`OpenedUrl`].
pub enum OpenedView {
    Bundle(Seq<char>),
    ProfileLink(Seq<char>),
}

impl View for OpenedUrl {
    type V = OpenedView;

    open spec fn view(&self) -> OpenedView {
        match self {
            OpenedUrl::Bundle(p) => OpenedView::Bundle(p@),
            OpenedUrl::ProfileLink(u) => OpenedView::ProfileLink(u@),
        }
    }
}

/// Whether `url` is a `file:` URL.
pub open spec fn is_file_url(url: Seq<char>) -> bool {
    url_parses(url) && url_scheme(url) == "file"@
}

/// What `url` is, given `file_path`, the local path a `file:` URL converts
/// to: a `file:` URL to a `.blip` path opens that bundle; else text ending in
/// `.blip` is a bundle path itself; anything else is a profile link.
pub open spec fn classify_spec(url: Seq<char>, file_path: Option<Seq<char>>) -> OpenedView {
    if is_file_url(url) && file_path is Some && path_extension_spec(file_path->0) == Some("blip"@) {
        OpenedView::Bundle(file_path->0)
    } else if path_extension_spec(url) == Some("blip"@) {
        OpenedView::Bundle(url)
    } else {
        OpenedView::ProfileLink(url)
    }
}

/// What `url` is, given the local path it converts to, if it is a `file:` URL.
pub fn classify_with(url: &str, file_path: Option<String>) -> (r: OpenedUrl)
    ensures
        r@ == classify_spec(url@, opt_text(file_path)),
{
    let is_file = match parse_url(url) {
        Some(parts) => same_text(parts.scheme.as_str(), "file"),
        None => false,
    };
    if is_file {
        match file_path {
            Some(p) => if has_extension(p.as_str(), "blip") {
                return OpenedUrl::Bundle(p);
            },
            None => {},
        }
    }
    if has_extension(url, "blip") {
        OpenedUrl::Bundle(owned(url))
    } else {
        OpenedUrl::ProfileLink(owned(url))
    }
}

/// What an opened URL is. A `file:` URL is converted to its local path with
/// the `url` crate; the outcome is the one `classify_with` gives for the path
/// it returned, and for any other URL, the one it gives without a path.
pub fn classify(url: &str) -> (r: OpenedUrl)
    ensures
        exists|file_path: Option<Seq<char>>| r@ == classify_spec(url@, file_path),
        !is_file_url(url@) ==> r@ == classify_spec(url@, None),
{
    let is_file = match parse_url(url) {
        Some(parts) => same_text(parts.scheme.as_str(), "file"),
        None => false,
    };
    let file_path = if is_file { file_path_of(url) } else { None };
    classify_with(url, file_path)
}

} // verus!
