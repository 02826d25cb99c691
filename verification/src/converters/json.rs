//! JSON conversion: pretty-printed inside a ```json fence.
use vstd::prelude::*;

use super::text::source_text;
use crate::bindings::json_text::{spec_json_parse, spec_json_pretty, JsonDocument};
use crate::bindings::view_option;
use crate::error::{ErrorView, MarkItDownError};
use crate::registry::{untitled, ConversionResult, Converted};
use crate::source::SourceContent;
use crate::text::{push_str, string_of};
use crate::util::decode_text;

verus! {

/// Pretty-prints JSON inside a Markdown code fence.
pub struct JsonConverter;

/// What converting JSON yields: the pretty-printed document between
/// "```json" and "```" lines, or a `json` decode error when it does not
/// parse or cannot be written back.
pub open spec fn spec_json(bytes: Seq<u8>, charset: Option<Seq<char>>) -> Result<
    Converted,
    ErrorView,
> {
    let text = source_text(bytes, charset);
    match spec_json_parse(text) {
        Err(e) => Err(ErrorView::Decode("json"@, e)),
        Ok(_) => match spec_json_pretty(text) {
            Ok(pretty) => Ok(untitled("```json\n"@ + pretty + "\n```\n"@)),
            Err(e) => Err(ErrorView::Decode("json"@, e)),
        },
    }
}

impl JsonConverter {
    /// Converts JSON to a fenced, pretty-printed block.
    pub fn convert(&self, src: &SourceContent) -> (r: Result<ConversionResult, MarkItDownError>)
        ensures
            crate::bindings::view_result(r) == spec_json(src.bytes@, view_option(src.charset)),
    {
        let charset = match &src.charset {
            Some(c) => Some(c.as_str()),
            None => None,
        };
        let text = decode_text(src.bytes.as_slice(), charset);
        let doc = match JsonDocument::parse(text.as_str()) {
            Ok(d) => d,
            Err(e) => return Err(MarkItDownError::decode(String::from_str("json"), e)),
        };
        match doc.to_pretty() {
            Ok(pretty) => {
                let mut out: Vec<char> = Vec::new();
                push_str(&mut out, "```json\n");
                push_str(&mut out, pretty.as_str());
                push_str(&mut out, "\n```\n");
                Ok(ConversionResult::text(string_of(out.as_slice())))
            },
            Err(e) => Err(MarkItDownError::decode(String::from_str("json"), e)),
        }
    }
}

} // verus!
