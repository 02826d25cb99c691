//! Trusted items over `serde_json`: parsing a document and writing it back
//! pretty-printed.
use vstd::prelude::*;

use super::view_result;

verus! {

/// `serde_json::Value` is held by [`JsonDocument`] without being looked
/// into.
#[verifier::external_type_specification]
#[verifier::external_body]
pub struct ExJsonValue(serde_json::Value);

/// What `serde_json::from_str::<Value>` yields for a text: success, or the
/// text of the error.
pub uninterp spec fn spec_json_parse(text: Seq<char>) -> Result<(), Seq<char>>;

/// What `serde_json::to_string_pretty` yields for the value parsed from a
/// text: the pretty-printed JSON, or the text of the error.
pub uninterp spec fn spec_json_pretty(text: Seq<char>) -> Result<Seq<char>, Seq<char>>;

/// A parsed JSON value, viewed as the text it was parsed from.
pub struct JsonDocument {
    value: serde_json::Value,
    source: Ghost<Seq<char>>,
}

impl View for JsonDocument {
    type V = Seq<char>;

    closed spec fn view(&self) -> Seq<char> {
        self.source@
    }
}

/// A parsing result: success, or the error's text.
pub open spec fn parsed(r: Result<JsonDocument, String>) -> Result<(), Seq<char>> {
    match r {
        Ok(_) => Ok(()),
        Err(e) => Err(e@),
    }
}

impl JsonDocument {
    /// Calls `serde_json::from_str` into a `Value`. Claims that the outcome
    /// is a function of the text, named `spec_json_parse`.
    #[verifier::external_body]
    pub(crate) fn parse(text: &str) -> (r: Result<JsonDocument, String>)
        ensures
            parsed(r) == spec_json_parse(text@),
            r matches Ok(d) ==> d@ == text@,
    {
        match serde_json::from_str(text) {
            Ok(value) => Ok(JsonDocument { value, source: Ghost(text@) }),
            Err(e) => Err(e.to_string()),
        }
    }

    /// Calls `serde_json::to_string_pretty` on the value. Claims that the
    /// outcome is a function of the text the value was parsed from, named
    /// `spec_json_pretty`.
    #[verifier::external_body]
    pub(crate) fn to_pretty(&self) -> (r: Result<String, String>)
        ensures
            view_result(r) == spec_json_pretty(self@),
    {
        serde_json::to_string_pretty(&self.value).map_err(|e| e.to_string())
    }
}

} // verus!
