//! What a Gemini `generateContent` request is made of.
use vstd::prelude::*;

use crate::text::{chars_of, copy_range, push_str, string_of};
use crate::gemini::route::Tier;

verus! {

/// The instruction sent alongside the PDF.
pub const PROMPT: &'static str = "Convert this PDF document to clean GitHub-Flavored Markdown. Preserve headings, paragraphs, lists, and tables (render tables as Markdown tables). Output only the Markdown, with no preamble or explanation.";

/// The largest number of tokens an answer may hold.
pub const MAX_OUTPUT_TOKENS: u32 = 8192;

/// `s` without its trailing `/` characters.
pub open spec fn without_trailing_slashes(s: Seq<char>) -> Seq<char>
    decreases s.len(),
{
    if s.len() > 0 && s.last() == '/' {
        without_trailing_slashes(s.drop_last())
    } else {
        s
    }
}

/// The endpoint of `generateContent` for a model under a base URL.
pub open spec fn spec_generate_url(base_url: Seq<char>, model: Seq<char>) -> Seq<char> {
    without_trailing_slashes(base_url) + "/v1beta/models/"@ + model + ":generateContent"@
}

/// The endpoint of `generateContent` for `model` under `base_url`.
pub fn generate_url(base_url: &str, model: &str) -> (r: String)
    ensures
        r@ == spec_generate_url(base_url@, model@),
{
    let b = chars_of(base_url);
    let mut end = b.len();
    assert(b@.subrange(0, end as int) =~= b@);
    while end > 0 && b[end - 1] == '/'
        invariant
            end <= b@.len(),
            without_trailing_slashes(b@) == without_trailing_slashes(b@.subrange(0, end as int)),
        decreases end,
    {
        assert(b@.subrange(0, end as int).drop_last() =~= b@.subrange(0, end - 1));
        end -= 1;
    }
    let mut out = copy_range(b.as_slice(), 0, end);
    push_str(&mut out, "/v1beta/models/");
    push_str(&mut out, model);
    push_str(&mut out, ":generateContent");
    string_of(out.as_slice())
}

/// The thinking budget (in tokens) that a tier's request carries as
/// `thinkingConfig.thinkingBudget`: 512 for the primary tier (thinking level
/// LOW), -1 (dynamic thinking) for the escalation tier (thinking level HIGH).
pub open spec fn spec_thinking_budget(tier: Tier) -> int {
    match tier {
        Tier::Primary => 512,
        Tier::Escalation => -1,
    }
}

/// The thinking budget of a tier's request.
pub fn thinking_budget(tier: Tier) -> (r: i32)
    ensures
        r == spec_thinking_budget(tier),
{
    match tier {
        Tier::Primary => 512,
        Tier::Escalation => -1,
    }
}

} // verus!
