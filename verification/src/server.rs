//! What the MCP server's `convert_to_markdown` tool answers, and which
//! transports it serves.
use vstd::prelude::*;

use crate::error::{ErrorView, MarkItDownError};
use crate::number::{decimal, spec_decimal};
use crate::registry::{error_text, ConversionResult, Converted};
use crate::text::{push_all, push_str, starts_with, string_of};

verus! {

/// The tool's name.
pub const TOOL_NAME: &'static str = "convert_to_markdown";

/// The tool's description.
pub const TOOL_DESCRIPTION: &'static str =
    "Convert a resource described by an http:, https:, file:, or data: URI to markdown.";

/// The server's instructions to its clients.
pub const SERVER_INSTRUCTIONS: &'static str =
    "Convert a document at an http/https/file/data URI to Markdown via the convert_to_markdown tool.";

/// The input of the `convert_to_markdown` tool.
#[derive(Debug, Clone)]
pub struct ConvertArgs {
    /// Resource URI. Supported schemes: http, https, file, data.
    pub uri: String,
}

/// What a tool call answers: its text, and whether it reports an error.
#[derive(Debug, Clone)]
pub struct ToolReply {
    pub is_error: bool,
    pub text: String,
}

/// The reply to a conversion: the Markdown, or `Error: ` and the error's
/// message, flagged as an error.
pub open spec fn spec_tool_reply(outcome: Result<Converted, ErrorView>) -> (bool, Seq<char>) {
    match outcome {
        Ok(c) => (false, c.markdown),
        Err(e) => (true, "Error: "@ + error_text(e)),
    }
}

/// The reply to a conversion. The text of an `Io` error comes from
/// `std::io::Error` and is only known to start with its prefix.
pub fn tool_reply(outcome: &Result<ConversionResult, MarkItDownError>) -> (r: ToolReply)
    ensures
        !(outcome matches Err(MarkItDownError::Io(_))) ==> (r.is_error, r.text@) == spec_tool_reply(
            crate::bindings::view_result(*outcome),
        ),
        outcome is Err <==> r.is_error,
        outcome matches Err(MarkItDownError::Io(_)) ==> starts_with(r.text@, "Error: I/O error: "@),
{
    match outcome {
        Ok(c) => ToolReply { is_error: false, text: c.markdown.clone() },
        Err(e) => {
            let mut text: Vec<char> = Vec::new();
            push_str(&mut text, "Error: ");
            let msg = e.message();
            push_str(&mut text, msg.as_str());
            proof {
                if e is Io {
                    reveal_strlit("Error: ");
                    reveal_strlit("I/O error: ");
                    reveal_strlit("Error: I/O error: ");
                    assert(text@ =~= "Error: "@ + msg@);
                    assert(("Error: "@ + msg@).subrange(0, 18) =~= "Error: "@ + msg@.subrange(0, 11));
                    assert("Error: I/O error: "@ =~= "Error: "@ + "I/O error: "@);
                }
            }
            ToolReply { is_error: true, text: string_of(text.as_slice()) }
        },
    }
}

/// The reply when the conversion task itself failed.
pub fn task_failure_reply(detail: &str) -> (r: ToolReply)
    ensures
        r.is_error,
        r.text@ == "Error: internal task failure: "@ + detail@,
{
    let mut text: Vec<char> = Vec::new();
    push_str(&mut text, "Error: internal task failure: ");
    push_str(&mut text, detail);
    ToolReply { is_error: true, text: string_of(text.as_slice()) }
}

/// The refusal of a transport other than stdio.
pub open spec fn http_refusal(host: Seq<char>, port: nat) -> Seq<char> {
    "HTTP/SSE transport ("@ + host + ":"@ + spec_decimal(port)
        + ") is not yet implemented; v1 supports stdio only"@
}

/// Whether the server can serve the transport asked for: stdio is served;
/// HTTP/SSE is refused with a message naming the address.
pub fn transport_check(http: bool, host: &str, port: u16) -> (r: Result<(), String>)
    ensures
        !http <==> r is Ok,
        r matches Err(m) ==> m@ == http_refusal(host@, port as nat),
{
    if !http {
        return Ok(());
    }
    let mut text: Vec<char> = Vec::new();
    push_str(&mut text, "HTTP/SSE transport (");
    push_str(&mut text, host);
    push_str(&mut text, ":");
    let digits = decimal(port as u64);
    push_all(&mut text, digits.as_slice());
    push_str(&mut text, ") is not yet implemented; v1 supports stdio only");
    Err(string_of(text.as_slice()))
}

} // verus!
