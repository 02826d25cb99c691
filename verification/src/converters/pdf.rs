//! PDF conversion. Without a Gemini configuration the text is extracted
//! locally (by `pdf_extract`, which the caller runs); with one, the PDF goes
//! through the Gemini route (see [`crate::gemini::route`]), whose network
//! calls the caller performs.
use vstd::prelude::*;

use crate::error::{ErrorView, MarkItDownError};
use crate::bindings::view_option;
use crate::gemini::config::GeminiView;
use crate::gemini::route::{reply_views, route, route_view, spec_route, Route};
use crate::gemini::GeminiConfig;
use crate::registry::{untitled, ConversionResult, Converted};
use crate::source::SourceContent;
use crate::step::Answer;
use crate::text::{chars_of, string_of, trim, trim_chars};

verus! {

/// Converts PDFs, through Gemini when a configuration is given.
pub struct PdfConverter {
    gemini: Option<GeminiConfig>,
}

/// What local extraction yields from the extractor's outcome: the trimmed
/// text, or a `pdf` decode error with the extractor's message.
pub open spec fn spec_pdf_local(text: Result<Seq<char>, Seq<char>>) -> Result<Converted, ErrorView> {
    match text {
        Ok(t) => Ok(untitled(trim(t))),
        Err(e) => Err(ErrorView::Decode("pdf"@, e)),
    }
}

impl PdfConverter {
    /// A converter; `Some` enables the Gemini route, `None` local extraction.
    pub fn new(gemini: Option<GeminiConfig>) -> (r: Self)
        ensures
            r.settings() == view_option(gemini),
    {
        PdfConverter { gemini }
    }

    /// The settings of the Gemini route, when it is enabled.
    pub closed spec fn settings(&self) -> Option<GeminiView> {
        view_option(self.gemini)
    }

    /// The Gemini configuration, when the Gemini route is enabled.
    pub fn gemini(&self) -> (r: &Option<GeminiConfig>)
        ensures
            view_option(*r) == self.settings(),
    {
        &self.gemini
    }

    /// The Gemini route for `src`: refuse a PDF over the inline limit, else
    /// take the primary tier's answer, escalating once when it is
    /// insufficient. Outcomes of the calls are read from `replies` at `pos`.
    /// There is no fallback to local extraction.
    pub fn convert_gemini(
        &self,
        cfg: &GeminiConfig,
        src: &SourceContent,
        replies: &[Answer],
        pos: usize,
    ) -> (r: (Route, usize))
        requires
            pos <= replies@.len(),
        ensures
            (route_view(r.0), r.1 as nat) == spec_route(
                cfg.inline_max_bytes as nat,
                src.bytes@.len(),
                reply_views(replies@),
                pos as nat,
            ),
    {
        route(cfg.inline_max_bytes, src.bytes.len(), replies, pos)
    }

    /// The result of local extraction, from the text the extractor gave or
    /// its error.
    pub fn convert_local(&self, text: &Result<String, String>) -> (r: Result<ConversionResult, MarkItDownError>)
        ensures
            crate::bindings::view_result(r) == spec_pdf_local(crate::bindings::view_result(*text)),
    {
        match text {
            Ok(t) => {
                let c = chars_of(t.as_str());
                let trimmed = trim_chars(c.as_slice());
                Ok(ConversionResult::text(string_of(trimmed.as_slice())))
            },
            Err(e) => Err(MarkItDownError::decode(String::from_str("pdf"), e.clone())),
        }
    }
}

} // verus!
