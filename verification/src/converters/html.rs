//! HTML conversion: Markdown through `htmd` (which the caller runs, see
//! [`crate::step::Extraction::HtmlMarkdown`]), the title from `<title>`.
use vstd::prelude::*;

use super::text::source_text;
use crate::bindings::html_text::{spec_first_match_text, spec_selector_ok, CssSelector, HtmlDocument};
use crate::bindings::view_option;
use crate::error::{ErrorView, MarkItDownError};
use crate::registry::{ConversionResult, Converted};
use crate::source::SourceContent;
use crate::text::{string_of, trim, trim_chars, chars_of};
use crate::util::decode_text;

verus! {

/// Converts HTML to Markdown.
pub struct HtmlConverter;

/// The trimmed text of the document's first `<title>`, unless it is empty.
pub open spec fn spec_extract_title(html: Seq<char>) -> Option<Seq<char>> {
    if !spec_selector_ok("title"@) {
        None
    } else {
        match spec_first_match_text(html, "title"@) {
            Some(t) => if trim(t).len() > 0 {
                Some(trim(t))
            } else {
                None
            },
            None => None,
        }
    }
}

/// The `<title>` of an HTML document, trimmed, when it is not empty.
pub fn extract_title(html: &str) -> (r: Option<String>)
    ensures
        view_option(r) == spec_extract_title(html@),
{
    let document = HtmlDocument::parse(html);
    let selector = match CssSelector::parse("title") {
        Some(s) => s,
        None => return None,
    };
    match document.first_text(&selector) {
        Some(t) => {
            let c = chars_of(t.as_str());
            let trimmed = trim_chars(c.as_slice());
            if trimmed.len() > 0 {
                Some(string_of(trimmed.as_slice()))
            } else {
                None
            }
        },
        None => None,
    }
}

/// What converting HTML yields, from its text and what `htmd` made of it:
/// the Markdown with the document's title, or an `html` decode error.
pub open spec fn spec_html(html: Seq<char>, markdown: Result<Seq<char>, Seq<char>>) -> Result<
    Converted,
    ErrorView,
> {
    match markdown {
        Ok(md) => Ok(Converted { markdown: md, title: spec_extract_title(html) }),
        Err(e) => Err(ErrorView::Decode("html"@, e)),
    }
}

/// The text of an HTML source: its bytes decoded (charset hint first).
pub open spec fn html_text(bytes: Seq<u8>, charset: Option<Seq<char>>) -> Seq<char> {
    source_text(bytes, charset)
}

impl HtmlConverter {
    /// The text of an HTML source, to be converted to Markdown.
    pub fn text(&self, src: &SourceContent) -> (r: String)
        ensures
            r@ == html_text(src.bytes@, view_option(src.charset)),
    {
        let charset = match &src.charset {
            Some(c) => Some(c.as_str()),
            None => None,
        };
        decode_text(src.bytes.as_slice(), charset)
    }

    /// Converts HTML to Markdown, given the source and what `htmd` made of
    /// its text, and extracts its title.
    pub fn convert(&self, src: &SourceContent, markdown: &Result<String, String>) -> (r: Result<
        ConversionResult,
        MarkItDownError,
    >)
        ensures
            crate::bindings::view_result(r) == spec_html(
                html_text(src.bytes@, view_option(src.charset)),
                crate::bindings::view_result(*markdown),
            ),
    {
        match markdown {
            Ok(md) => {
                let html = self.text(src);
                let title = extract_title(html.as_str());
                Ok(ConversionResult { markdown: md.clone(), title })
            },
            Err(e) => Err(MarkItDownError::decode(String::from_str("html"), e.clone())),
        }
    }
}

} // verus!
