//! Trusted items over the `url` crate.
use vstd::prelude::*;

use super::view_option;
use crate::text::before_char;

verus! {

/// `url::Url` is carried through the library (as the origin of remote
/// content) without being looked into.
#[verifier::external_type_specification]
#[verifier::external_body]
pub struct ExUrl(url::Url);

/// `Clone` for `url::Url`. `Url` derives `Clone`, and each of its fields (a
/// `String`, integers, options of integers and a `Copy` enum) is copied as it
/// is, so the copy is the same value.
pub assume_specification[ <url::Url as Clone>::clone ](u: &url::Url) -> (res: url::Url)
    ensures
        res == *u,
;

/// A parsed URL together with its serialization, which is its view. Values
/// are only made by [`WebUrl::parse`], so the two always agree.
#[derive(Debug, Clone)]
pub struct WebUrl {
    url: url::Url,
    text: String,
}

impl View for WebUrl {
    type V = Seq<char>;

    closed spec fn view(&self) -> Seq<char> {
        self.text@
    }
}

/// What `url::Url::parse` yields for a text: the serialization of the
/// parsed URL, or the `Display` text of the parse error.
pub uninterp spec fn spec_url_parse(input: Seq<char>) -> Result<Seq<char>, Seq<char>>;

/// What `url::Url::path_segments` followed by taking the last segment yields
/// for a URL given by its serialization (`None` for a URL that cannot be a
/// base).
pub uninterp spec fn spec_last_path_segment(url: Seq<char>) -> Option<Seq<char>>;

/// A parse result by the views of its sides.
pub open spec fn parsed_view(r: Result<WebUrl, String>) -> Result<Seq<char>, Seq<char>> {
    match r {
        Ok(u) => Ok(u@),
        Err(e) => Err(e@),
    }
}

impl WebUrl {
    /// Calls `url::Url::parse`. Claims that the outcome (the serialization of
    /// the URL, or the error's text) is a function of the input, named
    /// `spec_url_parse`.
    #[verifier::external_body]
    pub(crate) fn parse(input: &str) -> (r: Result<WebUrl, String>)
        ensures
            parsed_view(r) == spec_url_parse(input@),
    {
        match url::Url::parse(input) {
            Ok(url) => Ok(WebUrl { text: url.as_str().to_owned(), url }),
            Err(e) => Err(e.to_string()),
        }
    }

    /// The URL's serialization.
    pub fn as_str(&self) -> (r: &str)
        ensures
            r@ == self@,
    {
        self.text.as_str()
    }

    /// Calls `url::Url::scheme`. Claims, as the crate's source shows, that
    /// the scheme is the part of the serialization before its first `:`
    /// (the serialization starts with the scheme and a `:`, and a scheme
    /// holds no `:`).
    #[verifier::external_body]
    pub(crate) fn scheme(&self) -> (r: String)
        ensures
            r@ == before_char(self@, ':'),
    {
        self.url.scheme().to_owned()
    }

    /// Calls `url::Url::to_file_path`. Nothing is claimed of the outcome: it
    /// depends on the platform.
    #[verifier::external_body]
    pub(crate) fn to_file_path(&self) -> (r: Option<std::path::PathBuf>) {
        self.url.to_file_path().ok()
    }

    /// Calls `url::Url::path_segments` and takes the last segment. Claims
    /// that the outcome is a function of the serialization, named
    /// `spec_last_path_segment`.
    #[verifier::external_body]
    pub(crate) fn last_path_segment(&self) -> (r: Option<String>)
        ensures
            view_option(r) == spec_last_path_segment(self@),
    {
        self.url.path_segments().and_then(|mut s| s.next_back()).map(|s| s.to_owned())
    }

    /// A copy of the URL.
    pub fn duplicate(&self) -> (r: WebUrl)
        ensures
            r@ == self@,
    {
        WebUrl { url: self.url.clone(), text: self.text.clone() }
    }

    /// The parsed URL this value holds (the URL whose serialization is its
    /// view).
    pub closed spec fn parsed(&self) -> url::Url {
        self.url
    }

    /// The parsed URL.
    pub fn to_url(&self) -> (r: url::Url)
        ensures
            r == self.parsed(),
    {
        self.url.clone()
    }
}

} // verus!
