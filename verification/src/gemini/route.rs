//! The Gemini route for one PDF: the primary tier, then, when its answer is
//! insufficient, the escalation tier, then accept or fail. The calls
//! themselves are made by the caller; the route reads their outcomes, in
//! order, from a list of replies and says which call it needs next when the
//! list runs out.
use vstd::prelude::*;

use crate::error::{ErrorView, MarkItDownError};
use crate::gemini::assess::{reliable_failure, Assessment, AssessmentView};
use crate::gemini::response::{GeminiResponse, ResponseView};
use crate::number::{decimal, spec_decimal};
use crate::registry::{untitled, ConversionResult, Converted};
use crate::step::{answers_view, Answer, AnswerView, UNEXPECTED_ANSWER};
use crate::text::{chars_of, push_all, push_str, string_of, trim, trim_chars};

verus! {

/// The two tiers of the route.
#[derive(Debug, Clone, Copy, PartialEq, Eq, Structural)]
pub enum Tier {
    /// The first attempt (thinking level low).
    Primary,
    /// The retry after an insufficient first answer (thinking level high).
    Escalation,
}

/// An answer of Gemini together with the caller's verdict on it.
#[derive(Debug, Clone)]
pub struct Attempt {
    /// The answer.
    pub response: GeminiResponse,
    /// The verdict on the answer.
    pub assessment: Assessment,
}

/// The plain value of an [`Attempt`].
pub struct AttemptView {
    pub response: ResponseView,
    pub assessment: AssessmentView,
}

impl View for Attempt {
    type V = AttemptView;

    open spec fn view(&self) -> AttemptView {
        AttemptView { response: self.response@, assessment: self.assessment@ }
    }
}

/// The answers as replies to Gemini calls: the assessed answer or the
/// message of the `pdf-gemini` error the call ended with; an answer of
/// another kind is an error.
pub open spec fn gemini_replies(answers: Seq<AnswerView>) -> Seq<Result<AttemptView, Seq<char>>> {
    answers.map_values(
        |a: AnswerView|
            match a {
                AnswerView::Gemini(r) => r,
                _ => Err(UNEXPECTED_ANSWER@),
            },
    )
}

/// The replies that the caller's answers give to Gemini calls.
pub open spec fn reply_views(answers: Seq<Answer>) -> Seq<Result<AttemptView, Seq<char>>> {
    gemini_replies(answers_view(answers))
}

/// Where the route stands: finished, or waiting for a call of a tier.
pub enum Route {
    Finished(Result<ConversionResult, MarkItDownError>),
    Call(Tier),
}

/// The plain value of a [`Route`].
pub enum RouteView {
    Finished(Result<Converted, ErrorView>),
    Call(Tier),
}

/// The view of a route.
pub open spec fn route_view(r: Route) -> RouteView {
    match r {
        Route::Finished(res) => RouteView::Finished(crate::bindings::view_result(res)),
        Route::Call(t) => RouteView::Call(t),
    }
}

/// A `pdf-gemini` decode error.
pub open spec fn gemini_error(message: Seq<char>) -> ErrorView {
    ErrorView::Decode("pdf-gemini"@, message)
}

/// The message for a PDF over the inline limit.
pub open spec fn too_large_message(len: nat, limit: nat) -> Seq<char> {
    "file too large for inline conversion ("@ + spec_decimal(len) + " bytes > limit "@
        + spec_decimal(limit) + ")"@
}

/// The result made of an accepted answer: its text, trimmed.
pub open spec fn accepted(a: AttemptView) -> Converted {
    untitled(trim(a.response.text))
}

/// What the escalation tier's answer yields: accepted when sufficient, and
/// also when its only fault is not reliable evidence of a bad extraction
/// (there is no further tier to try); an `escalation insufficient` error
/// otherwise.
pub open spec fn escalated_outcome(a: AttemptView) -> Result<Converted, ErrorView> {
    match a.assessment {
        AssessmentView::Sufficient => Ok(accepted(a)),
        AssessmentView::Insufficient(kind, reason) => if reliable_failure(kind) {
            Err(gemini_error("escalation insufficient: "@ + reason))
        } else {
            Ok(accepted(a))
        },
    }
}

/// The route for a PDF of `len` bytes under the inline limit `limit`,
/// reading replies from position `pos`: the result, or the call needed
/// next, and the position after the replies it used. An oversized PDF is
/// refused before any call; a failed call ends the route with its error.
pub open spec fn spec_route(
    limit: nat,
    len: nat,
    replies: Seq<Result<AttemptView, Seq<char>>>,
    pos: nat,
) -> (RouteView, nat) {
    if len > limit {
        (RouteView::Finished(Err(gemini_error(too_large_message(len, limit)))), pos)
    } else if pos >= replies.len() {
        (RouteView::Call(Tier::Primary), pos)
    } else {
        match replies[pos as int] {
            Err(m) => (RouteView::Finished(Err(gemini_error(m))), pos + 1),
            Ok(first) => match first.assessment {
                AssessmentView::Sufficient => (RouteView::Finished(Ok(accepted(first))), pos + 1),
                AssessmentView::Insufficient(_, _) => if pos + 1 >= replies.len() {
                    (RouteView::Call(Tier::Escalation), pos + 1)
                } else {
                    match replies[pos + 1int] {
                        Err(m) => (RouteView::Finished(Err(gemini_error(m))), pos + 2),
                        Ok(second) => (RouteView::Finished(escalated_outcome(second)), pos + 2),
                    }
                },
            },
        }
    }
}

/// The message for a PDF over the inline limit.
fn too_large(len: usize, limit: usize) -> (r: String)
    ensures
        r@ == too_large_message(len as nat, limit as nat),
{
    let mut msg: Vec<char> = Vec::new();
    push_str(&mut msg, "file too large for inline conversion (");
    let a = decimal(len as u64);
    push_all(&mut msg, a.as_slice());
    push_str(&mut msg, " bytes > limit ");
    let b = decimal(limit as u64);
    push_all(&mut msg, b.as_slice());
    push_str(&mut msg, ")");
    string_of(msg.as_slice())
}

/// The result made of an accepted answer.
fn accept(a: &Attempt) -> (r: ConversionResult)
    ensures
        r@ == accepted(a@),
{
    let c = chars_of(a.response.text.as_str());
    let t = trim_chars(c.as_slice());
    ConversionResult::text(string_of(t.as_slice()))
}

/// A `pdf-gemini` decode error.
fn gemini_failure(message: String) -> (r: MarkItDownError)
    ensures
        r@ == gemini_error(message@),
{
    MarkItDownError::decode(String::from_str("pdf-gemini"), message)
}

/// What the escalation tier's answer yields.
fn escalated(a: &Attempt) -> (r: Result<ConversionResult, MarkItDownError>)
    ensures
        crate::bindings::view_result(r) == escalated_outcome(a@),
{
    match &a.assessment {
        Assessment::Sufficient => Ok(accept(a)),
        Assessment::Insufficient { kind, reason } => {
            if kind.is_reliable_failure() {
                let mut msg: Vec<char> = Vec::new();
                push_str(&mut msg, "escalation insufficient: ");
                push_str(&mut msg, reason.as_str());
                Err(gemini_failure(string_of(msg.as_slice())))
            } else {
                Ok(accept(a))
            }
        },
    }
}

/// Runs the route for a PDF of `len` bytes under the inline limit `limit`
/// over the answers from position `pos`.
pub fn route(limit: usize, len: usize, replies: &[Answer], pos: usize) -> (r: (Route, usize))
    requires
        pos <= replies@.len(),
    ensures
        (route_view(r.0), r.1 as nat) == spec_route(
            limit as nat,
            len as nat,
            reply_views(replies@),
            pos as nat,
        ),
{
    let ghost rv = reply_views(replies@);
    if len > limit {
        return (Route::Finished(Err(gemini_failure(too_large(len, limit)))), pos);
    }
    if pos >= replies.len() {
        return (Route::Call(Tier::Primary), pos);
    }
    assert(rv[pos as int] == match replies@[pos as int]@ {
        AnswerView::Gemini(r) => r,
        _ => Err(UNEXPECTED_ANSWER@),
    });
    match &replies[pos] {
        Answer::Gemini(Err(m)) => (Route::Finished(Err(gemini_failure(m.clone()))), pos + 1),
        Answer::Gemini(Ok(first)) => {
            if first.assessment.is_sufficient() {
                (Route::Finished(Ok(accept(first))), pos + 1)
            } else if pos + 1 >= replies.len() {
                (Route::Call(Tier::Escalation), pos + 1)
            } else {
                assert(rv[pos + 1] == match replies@[pos + 1]@ {
                    AnswerView::Gemini(r) => r,
                    _ => Err(UNEXPECTED_ANSWER@),
                });
                match &replies[pos + 1] {
                    Answer::Gemini(Err(m)) => (
                        Route::Finished(Err(gemini_failure(m.clone()))),
                        pos + 2,
                    ),
                    Answer::Gemini(Ok(second)) => (Route::Finished(escalated(second)), pos + 2),
                    _ => (
                        Route::Finished(Err(gemini_failure(String::from_str(UNEXPECTED_ANSWER)))),
                        pos + 2,
                    ),
                }
            }
        },
        _ => (
            Route::Finished(Err(gemini_failure(String::from_str(UNEXPECTED_ANSWER)))),
            pos + 1,
        ),
    }
}

/// The route uses at most two replies, and asks for a call only once the
/// replies it was given have run out.
pub proof fn lemma_route_uses_at_most_two_replies(
    limit: nat,
    len: nat,
    replies: Seq<Result<AttemptView, Seq<char>>>,
    pos: nat,
)
    requires
        pos <= replies.len(),
    ensures
        pos <= spec_route(limit, len, replies, pos).1 <= pos + 2,
        spec_route(limit, len, replies, pos).1 <= replies.len(),
        spec_route(limit, len, replies, pos).0 is Call ==> spec_route(limit, len, replies, pos).1
            == replies.len(),
{
}

/// No fallback to local extraction: whatever the route accepts is the
/// trimmed text of one of the answers it read, and whatever it refuses is a
/// `pdf-gemini` error.
pub proof fn lemma_route_never_falls_back(
    limit: nat,
    len: nat,
    replies: Seq<Result<AttemptView, Seq<char>>>,
    pos: nat,
)
    requires
        pos <= replies.len(),
    ensures
        match spec_route(limit, len, replies, pos).0 {
            RouteView::Finished(Ok(c)) => exists|k: int|
                pos <= k < spec_route(limit, len, replies, pos).1 && #[trigger] replies[k] is Ok
                    && c == accepted(replies[k]->Ok_0),
            RouteView::Finished(Err(e)) => e is Decode && e->Decode_0 == "pdf-gemini"@,
            RouteView::Call(_) => true,
        },
{
    let (r, p) = spec_route(limit, len, replies, pos);
    if let RouteView::Finished(Ok(c)) = r {
        if replies[pos as int] is Ok && replies[pos as int]->Ok_0.assessment is Sufficient {
            assert(replies[pos as int] is Ok);
        } else {
            assert(replies[pos + 1int] is Ok);
        }
    }
}

/// The escalation tier is reached only after the primary tier answered and
/// its answer was judged insufficient; a sufficient primary answer is
/// returned as it is, trimmed.
pub proof fn lemma_escalation_only_after_insufficient_primary(
    limit: nat,
    len: nat,
    replies: Seq<Result<AttemptView, Seq<char>>>,
    pos: nat,
)
    requires
        pos <= replies.len(),
    ensures
        spec_route(limit, len, replies, pos).1 == pos + 2 || spec_route(
            limit,
            len,
            replies,
            pos,
        ).0 == RouteView::Call(Tier::Escalation) ==> replies[pos as int] is Ok
            && replies[pos as int]->Ok_0.assessment is Insufficient,
        len <= limit && pos < replies.len() && replies[pos as int] is Ok
            && replies[pos as int]->Ok_0.assessment is Sufficient ==> spec_route(
            limit,
            len,
            replies,
            pos,
        ) == (RouteView::Finished(Ok(accepted(replies[pos as int]->Ok_0))), pos + 1),
{
}

/// A PDF over the inline limit is refused before any call is made.
pub proof fn lemma_oversized_pdf_is_refused_before_any_call(
    limit: nat,
    len: nat,
    replies: Seq<Result<AttemptView, Seq<char>>>,
    pos: nat,
)
    requires
        len > limit,
    ensures
        spec_route(limit, len, replies, pos) == (
            RouteView::Finished(Err(gemini_error(too_large_message(len, limit)))),
            pos,
        ),
{
}

} // verus!
