//! Trusted items over `scraper` (parsing a document and selecting
//! elements).
use vstd::prelude::*;

use super::{view_option, view_result};

verus! {

/// `scraper::Html` is held by [`HtmlDocument`] without being looked into.
#[verifier::external_type_specification]
#[verifier::external_body]
pub struct ExHtml(scraper::Html);

/// `scraper::Selector` is held by [`CssSelector`] without being looked
/// into.
#[verifier::external_type_specification]
#[verifier::external_body]
pub struct ExSelector(scraper::Selector);

/// Whether `scraper::Selector::parse` accepts a selector text.
pub uninterp spec fn spec_selector_ok(selector: Seq<char>) -> bool;

/// The text (all text nodes, concatenated) of the first element that
/// `Html::select` finds for a selector in a document, if any.
pub uninterp spec fn spec_first_match_text(html: Seq<char>, selector: Seq<char>) -> Option<
    Seq<char>,
>;

/// A parsed HTML document, viewed as its source text.
pub struct HtmlDocument {
    html: scraper::Html,
    source: Ghost<Seq<char>>,
}

impl View for HtmlDocument {
    type V = Seq<char>;

    closed spec fn view(&self) -> Seq<char> {
        self.source@
    }
}

/// A parsed CSS selector, viewed as its text.
pub struct CssSelector {
    selector: scraper::Selector,
    source: Ghost<Seq<char>>,
}

impl View for CssSelector {
    type V = Seq<char>;

    closed spec fn view(&self) -> Seq<char> {
        self.source@
    }
}

impl HtmlDocument {
    /// Calls `scraper::Html::parse_document`.
    #[verifier::external_body]
    pub(crate) fn parse(html: &str) -> (r: HtmlDocument)
        ensures
            r@ == html@,
    {
        HtmlDocument { html: scraper::Html::parse_document(html), source: Ghost(html@) }
    }

    /// Calls `Html::select` and collects the text of the first element
    /// found. Claims that it is a function of the document and the
    /// selector, named `spec_first_match_text`.
    #[verifier::external_body]
    pub(crate) fn first_text(&self, selector: &CssSelector) -> (r: Option<String>)
        ensures
            view_option(r) == spec_first_match_text(self@, selector@),
    {
        self.html.select(&selector.selector).next().map(|e| e.text().collect::<String>())
    }
}

impl CssSelector {
    /// Calls `scraper::Selector::parse`. Claims that whether it succeeds is
    /// a function of the text, named `spec_selector_ok`.
    #[verifier::external_body]
    pub(crate) fn parse(selector: &str) -> (r: Option<CssSelector>)
        ensures
            r is Some == spec_selector_ok(selector@),
            r matches Some(s) ==> s@ == selector@,
    {
        scraper::Selector::parse(selector).ok().map(|s| CssSelector { selector: s, source: Ghost(selector@) })
    }
}

} // verus!
