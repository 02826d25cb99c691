//! Plain text conversion with encoding detection.
use vstd::prelude::*;

use crate::bindings::view_option;
use crate::registry::{untitled, ConversionResult, Converted};
use crate::source::SourceContent;
use crate::util::{decode_text, spec_decode_text};

verus! {

/// Returns the decoded text as the Markdown body.
pub struct TextConverter;

/// The decoded text of a source, with its charset hint.
pub open spec fn source_text(bytes: Seq<u8>, charset: Option<Seq<char>>) -> Seq<char> {
    spec_decode_text(bytes, charset)
}

impl TextConverter {
    /// Converts text: the body is the decoded text, as it is.
    pub fn convert(&self, src: &SourceContent) -> (r: ConversionResult)
        ensures
            r@ == untitled(source_text(src.bytes@, view_option(src.charset))),
    {
        let charset = match &src.charset {
            Some(c) => Some(c.as_str()),
            None => None,
        };
        ConversionResult::text(decode_text(src.bytes.as_slice(), charset))
    }
}

} // verus!
