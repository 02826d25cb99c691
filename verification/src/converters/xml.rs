//! XML conversion: re-indented inside a ```xml fence; when re-indenting
//! fails the text goes in as it is.
use vstd::prelude::*;

use super::text::source_text;
use crate::bindings::view_option;
use crate::bindings::std_text::string_from_utf8;
use crate::bindings::xml::{
    position_of, spec_xml_position, spec_xml_read, spec_xml_write_ok, spec_xml_written, XmlReader,
    XmlWriter,
};
use vstd::utf8::{decode_utf8, encode_utf8, valid_utf8};
use crate::registry::{untitled, ConversionResult, Converted};
use crate::source::SourceContent;
use crate::text::{push_str, string_of};
use crate::util::decode_text;

verus! {

/// Wraps XML in a Markdown code fence.
pub struct XmlConverter;

/// The bytes a writer indenting by two spaces holds once every event of
/// `input` from the `k`-th on (read with text trimmed, at most `budget` of
/// them) has been written to it after those in `written`; `None` when
/// reading or writing fails. As every event but the last consumes input, a
/// budget of one more than the input's length always suffices.
pub open spec fn indent_from(
    input: Seq<u8>,
    k: nat,
    written: Seq<(Seq<u8>, bool, bool, nat)>,
    budget: nat,
) -> Option<Seq<u8>>
    decreases budget,
{
    if budget == 0 {
        None
    } else {
        match spec_xml_read(input, true, true, k) {
            Err(_) => None,
            Ok(false) => Some(spec_xml_written(written)),
            Ok(true) => {
                let id = (input, true, true, k);
                if spec_xml_write_ok(written, id) {
                    indent_from(input, k + 1, written.push(id), (budget - 1) as nat)
                } else {
                    None
                }
            },
        }
    }
}

/// The re-indented XML, or the text as it is when reading, writing or
/// decoding the output as UTF-8 fails.
pub open spec fn spec_pretty_print(text: Seq<char>) -> Seq<char> {
    let input = encode_utf8(text);
    match indent_from(input, 0, Seq::empty(), input.len() + 1) {
        Some(bytes) => if valid_utf8(bytes) {
            decode_utf8(bytes)
        } else {
            text
        },
        None => text,
    }
}

/// Re-indents XML; returns the input unchanged when that fails.
pub fn pretty_print(text: &str) -> (r: String)
    ensures
        r@ == spec_pretty_print(text@),
{
    let mut reader = XmlReader::from_text(text);
    reader.trim_text();
    let mut writer = XmlWriter::indented();
    let ghost input = encode_utf8(text@);
    loop
        invariant
            input == encode_utf8(text@),
            reader@.input == input,
            reader@.from_str,
            reader@.trim,
            reader@.events <= position_of(reader@) <= input.len(),
            indent_from(input, 0, Seq::empty(), input.len() + 1) == indent_from(
                input,
                reader@.events,
                writer@,
                (input.len() + 1 - reader@.events) as nat,
            ),
        decreases input.len() - position_of(reader@),
    {
        let ghost k = reader@.events;
        match reader.read_event() {
            Err(_) => {
                return String::from_str(text);
            },
            Ok(None) => {
                let bytes = writer.into_bytes();
                return match string_from_utf8(bytes) {
                    Some(s) => s,
                    None => String::from_str(text),
                };
            },
            Ok(Some(event)) => {
                if !writer.write_event(event) {
                    return String::from_str(text);
                }
                assert(((input.len() + 1 - k) - 1) as nat == (input.len() + 1 - (k + 1)) as nat);
            },
        }
    }
}

/// What converting XML yields: the re-indented text between "```xml" and
/// "```" lines.
pub open spec fn spec_xml(bytes: Seq<u8>, charset: Option<Seq<char>>) -> Converted {
    untitled("```xml\n"@ + spec_pretty_print(source_text(bytes, charset)) + "\n```\n"@)
}

impl XmlConverter {
    /// Converts XML to a fenced, re-indented block.
    pub fn convert(&self, src: &SourceContent) -> (r: ConversionResult)
        ensures
            r@ == spec_xml(src.bytes@, view_option(src.charset)),
    {
        let charset = match &src.charset {
            Some(c) => Some(c.as_str()),
            None => None,
        };
        let text = decode_text(src.bytes.as_slice(), charset);
        let pretty = pretty_print(text.as_str());
        let mut out: Vec<char> = Vec::new();
        push_str(&mut out, "```xml\n");
        push_str(&mut out, pretty.as_str());
        push_str(&mut out, "\n```\n");
        ConversionResult::text(string_of(out.as_slice()))
    }
}

} // verus!
