//! What the engine reads of a `generateContent` response, and how a
//! response is reduced to text and finish reason.
use vstd::prelude::*;

use crate::bindings::view_option;
use crate::error::{ErrorView, MarkItDownError};
use crate::text::{push_str, string_of};

verus! {

/// A successful Gemini response, reduced to the fields the engine needs.
#[derive(Debug, Clone)]
pub struct GeminiResponse {
    /// The concatenated text of the non-thought parts.
    pub text: String,
    /// `candidates[0].finishReason` (`STOP` when absent).
    pub finish_reason: String,
}

/// The plain value of a [`GeminiResponse`].
pub struct ResponseView {
    pub text: Seq<char>,
    pub finish_reason: Seq<char>,
}

impl View for GeminiResponse {
    type V = ResponseView;

    open spec fn view(&self) -> ResponseView {
        ResponseView { text: self.text@, finish_reason: self.finish_reason@ }
    }
}

impl GeminiResponse {
    /// A copy with the same text and finish reason.
    pub fn duplicate(&self) -> (r: Self)
        ensures
            r@ == self@,
    {
        GeminiResponse { text: self.text.clone(), finish_reason: self.finish_reason.clone() }
    }
}

/// One part of the first candidate's content.
#[derive(Debug, Clone)]
pub struct ContentPart {
    /// The part's text, when it has one.
    pub text: Option<String>,
    /// Whether the part is a thought summary rather than output.
    pub thought: bool,
}

/// The plain value of a [`ContentPart`].
pub struct PartView {
    pub text: Option<Seq<char>>,
    pub thought: bool,
}

impl View for ContentPart {
    type V = PartView;

    open spec fn view(&self) -> PartView {
        PartView { text: view_option(self.text), thought: self.thought }
    }
}

/// The fields of a `generateContent` response that the engine reads.
#[derive(Debug, Clone)]
pub struct ResponseParts {
    /// How many candidates the response holds.
    pub candidate_count: usize,
    /// `promptFeedback.blockReason`, when present.
    pub block_reason: Option<String>,
    /// The first candidate's `finishReason`, when present.
    pub finish_reason: Option<String>,
    /// The parts of the first candidate's content.
    pub parts: Vec<ContentPart>,
}

/// The text of the non-thought parts, in order.
pub open spec fn visible_text(parts: Seq<PartView>) -> Seq<char>
    decreases parts.len(),
{
    if parts.len() == 0 {
        Seq::empty()
    } else {
        let last = parts.last();
        visible_text(parts.drop_last()) + if last.thought {
            Seq::empty()
        } else {
            match last.text {
                Some(t) => t,
                None => Seq::empty(),
            }
        }
    }
}

/// What a response reduces to: a `prompt blocked` error when it has no
/// candidate (with the block reason, else `no candidates returned`);
/// otherwise the visible text and the finish reason (`STOP` when absent).
pub open spec fn spec_distill(
    candidate_count: nat,
    block_reason: Option<Seq<char>>,
    finish_reason: Option<Seq<char>>,
    parts: Seq<PartView>,
) -> Result<ResponseView, ErrorView> {
    if candidate_count == 0 {
        let block = match block_reason {
            Some(b) => b,
            None => "no candidates returned"@,
        };
        Err(ErrorView::Decode("pdf-gemini"@, "prompt blocked: "@ + block))
    } else {
        Ok(
            ResponseView {
                text: visible_text(parts),
                finish_reason: match finish_reason {
                    Some(f) => f,
                    None => "STOP"@,
                },
            },
        )
    }
}

/// The views of a sequence of parts.
pub open spec fn parts_view(parts: Seq<ContentPart>) -> Seq<PartView> {
    parts.map_values(|p: ContentPart| p@)
}

/// Reduces a response to [`GeminiResponse`]: no candidate is a "prompt
/// blocked" error, thought parts are left out of the text, and a missing
/// finish reason counts as `STOP`.
pub fn distill(response: &ResponseParts) -> (r: Result<GeminiResponse, MarkItDownError>)
    ensures
        crate::bindings::view_result(r) == spec_distill(
            response.candidate_count as nat,
            view_option(response.block_reason),
            view_option(response.finish_reason),
            parts_view(response.parts@),
        ),
{
    if response.candidate_count == 0 {
        let mut msg: Vec<char> = Vec::new();
        push_str(&mut msg, "prompt blocked: ");
        match &response.block_reason {
            Some(b) => push_str(&mut msg, b.as_str()),
            None => push_str(&mut msg, "no candidates returned"),
        }
        return Err(MarkItDownError::decode(String::from_str("pdf-gemini"), string_of(msg.as_slice())));
    }
    let finish_reason = match &response.finish_reason {
        Some(f) => f.clone(),
        None => String::from_str("STOP"),
    };
    let ghost all = parts_view(response.parts@);
    let mut text: Vec<char> = Vec::new();
    let mut i: usize = 0;
    while i < response.parts.len()
        invariant
            i <= response.parts@.len(),
            all == parts_view(response.parts@),
            text@ == visible_text(all.subrange(0, i as int)),
        decreases response.parts@.len() - i,
    {
        let part = &response.parts[i];
        proof {
            let s = all.subrange(0, i as int + 1);
            assert(s.drop_last() =~= all.subrange(0, i as int));
            assert(s.last() == part@);
        }
        if !part.thought {
            match &part.text {
                Some(t) => push_str(&mut text, t.as_str()),
                None => {},
            }
        }
        proof {
            assert(text@ =~= visible_text(all.subrange(0, i as int + 1)));
        }
        i += 1;
    }
    proof {
        assert(all.subrange(0, all.len() as int) =~= all);
    }
    Ok(GeminiResponse { text: string_of(text.as_slice()), finish_reason })
}

} // verus!
