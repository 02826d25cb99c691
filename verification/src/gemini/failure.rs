//! Failed Gemini calls and the error messages they are reported with.
use vstd::prelude::*;

use crate::error::{ErrorView, MarkItDownError};
use crate::number::{decimal, spec_decimal};
use crate::text::{push_all, push_str, string_of};

verus! {

/// Why a Gemini call failed.
#[derive(Debug, Clone)]
pub enum GeminiFailure {
    /// The API answered with an error status and message.
    Api { code: u16, message: String },
    /// The request timed out.
    Timeout(String),
    /// The request could not be sent or its answer not received.
    Network(String),
    /// Any other client failure.
    Other(String),
}

/// The plain value of a [`GeminiFailure`].
pub enum FailureView {
    Api(nat, Seq<char>),
    Timeout(Seq<char>),
    Network(Seq<char>),
    Other(Seq<char>),
}

impl View for GeminiFailure {
    type V = FailureView;

    open spec fn view(&self) -> FailureView {
        match self {
            GeminiFailure::Api { code, message } => FailureView::Api(*code as nat, message@),
            GeminiFailure::Timeout(m) => FailureView::Timeout(m@),
            GeminiFailure::Network(m) => FailureView::Network(m@),
            GeminiFailure::Other(m) => FailureView::Other(m@),
        }
    }
}

/// The category of an API error status: `auth` (400, 403), `rate-limit`
/// (429), `server` (5xx), else `http`.
pub open spec fn status_kind(code: nat) -> Seq<char> {
    if code == 400 || code == 403 {
        "auth"@
    } else if code == 429 {
        "rate-limit"@
    } else if 500 <= code <= 599 {
        "server"@
    } else {
        "http"@
    }
}

/// The message a failure is reported with.
pub open spec fn spec_failure_message(f: FailureView) -> Seq<char> {
    match f {
        FailureView::Api(code, message) => status_kind(code) + " error ("@ + spec_decimal(code)
            + "): "@ + message,
        FailureView::Timeout(m) => "timeout error: "@ + m,
        FailureView::Network(m) => "network error: "@ + m,
        FailureView::Other(m) => "gemini client error: "@ + m,
    }
}

/// The category of an API error status.
pub fn status_kind_of(code: u16) -> (r: &'static str)
    ensures
        r@ == status_kind(code as nat),
{
    if code == 400 || code == 403 {
        "auth"
    } else if code == 429 {
        "rate-limit"
    } else if 500 <= code && code <= 599 {
        "server"
    } else {
        "http"
    }
}

/// Maps a failed call onto a `pdf-gemini` decode error whose message names
/// the category: auth / rate-limit / server / http by status code, timeout
/// and network for transport failures, and a generic label otherwise.
pub fn failure_error(f: &GeminiFailure) -> (r: MarkItDownError)
    ensures
        r@ == ErrorView::Decode("pdf-gemini"@, spec_failure_message(f@)),
{
    let mut msg: Vec<char> = Vec::new();
    match f {
        GeminiFailure::Api { code, message } => {
            push_str(&mut msg, status_kind_of(*code));
            push_str(&mut msg, " error (");
            let digits = decimal(*code as u64);
            push_all(&mut msg, digits.as_slice());
            push_str(&mut msg, "): ");
            push_str(&mut msg, message.as_str());
        },
        GeminiFailure::Timeout(m) => {
            push_str(&mut msg, "timeout error: ");
            push_str(&mut msg, m.as_str());
        },
        GeminiFailure::Network(m) => {
            push_str(&mut msg, "network error: ");
            push_str(&mut msg, m.as_str());
        },
        GeminiFailure::Other(m) => {
            push_str(&mut msg, "gemini client error: ");
            push_str(&mut msg, m.as_str());
        },
    }
    MarkItDownError::decode(String::from_str("pdf-gemini"), string_of(msg.as_slice()))
}

} // verus!
