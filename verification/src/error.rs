//! Typed errors of the conversion pipeline.
use vstd::prelude::*;

use crate::bindings::std_text::io_error_text;
use crate::text::{push_all, push_str, starts_with, string_of};

verus! {

/// The error type used throughout the conversion pipeline. No variant stops
/// the process; each carries a message that tells the cause apart.
#[derive(Debug)]
pub enum MarkItDownError {
    /// The URI scheme is not one of http, https, file, data.
    UnsupportedScheme(String),
    /// The URI could not be parsed.
    InvalidUri(String),
    /// The content could not be acquired (permission, missing file,
    /// network failure, HTTP error status, timeout...).
    Acquire { uri: String, message: String },
    /// The format could not be detected or is not supported.
    UnsupportedFormat(String),
    /// The content is damaged or could not be parsed.
    Decode { format: String, message: String },
    /// An I/O error.
    Io(std::io::Error),
}

/// The plain value of a [`MarkItDownError`]; the `Io` error is not looked
/// into.
pub enum ErrorView {
    UnsupportedScheme(Seq<char>),
    InvalidUri(Seq<char>),
    Acquire(Seq<char>, Seq<char>),
    UnsupportedFormat(Seq<char>),
    Decode(Seq<char>, Seq<char>),
    Io,
}

impl View for MarkItDownError {
    type V = ErrorView;

    open spec fn view(&self) -> ErrorView {
        match self {
            MarkItDownError::UnsupportedScheme(s) => ErrorView::UnsupportedScheme(s@),
            MarkItDownError::InvalidUri(s) => ErrorView::InvalidUri(s@),
            MarkItDownError::Acquire { uri, message } => ErrorView::Acquire(uri@, message@),
            MarkItDownError::UnsupportedFormat(s) => ErrorView::UnsupportedFormat(s@),
            MarkItDownError::Decode { format, message } => ErrorView::Decode(format@, message@),
            MarkItDownError::Io(_) => ErrorView::Io,
        }
    }
}

impl MarkItDownError {
    /// Builds an [`MarkItDownError::Acquire`] error.
    pub fn acquire(uri: String, message: String) -> (r: Self)
        ensures
            r@ == ErrorView::Acquire(uri@, message@),
    {
        MarkItDownError::Acquire { uri, message }
    }

    /// Builds a [`MarkItDownError::Decode`] error.
    pub fn decode(format: String, message: String) -> (r: Self)
        ensures
            r@ == ErrorView::Decode(format@, message@),
    {
        MarkItDownError::Decode { format, message }
    }

    /// The human-readable message of every variant but `Io`, whose text
    /// comes from `std::io::Error`.
    pub open spec fn spec_message(&self) -> Seq<char> {
        match self {
            MarkItDownError::UnsupportedScheme(s) => "unsupported URI scheme: '"@ + s@
                + "' (supported: http, https, file, data)"@,
            MarkItDownError::InvalidUri(s) => "invalid URI: "@ + s@,
            MarkItDownError::Acquire { uri, message } => "failed to acquire content from '"@
                + uri@ + "': "@ + message@,
            MarkItDownError::UnsupportedFormat(s) => "unsupported format: "@ + s@,
            MarkItDownError::Decode { format, message } => "failed to decode "@ + format@ + ": "@
                + message@,
            MarkItDownError::Io(_) => "I/O error: "@,
        }
    }

    /// The error's message, as its `Display` form shows it.
    pub fn message(&self) -> (r: String)
        ensures
            !(self is Io) ==> r@ == self.spec_message(),
            self is Io ==> starts_with(r@, "I/O error: "@),
    {
        let mut out: Vec<char> = Vec::new();
        match self {
            MarkItDownError::UnsupportedScheme(s) => {
                push_str(&mut out, "unsupported URI scheme: '");
                push_str(&mut out, s.as_str());
                push_str(&mut out, "' (supported: http, https, file, data)");
            },
            MarkItDownError::InvalidUri(s) => {
                push_str(&mut out, "invalid URI: ");
                push_str(&mut out, s.as_str());
            },
            MarkItDownError::Acquire { uri, message } => {
                push_str(&mut out, "failed to acquire content from '");
                push_str(&mut out, uri.as_str());
                push_str(&mut out, "': ");
                push_str(&mut out, message.as_str());
            },
            MarkItDownError::UnsupportedFormat(s) => {
                push_str(&mut out, "unsupported format: ");
                push_str(&mut out, s.as_str());
            },
            MarkItDownError::Decode { format, message } => {
                push_str(&mut out, "failed to decode ");
                push_str(&mut out, format.as_str());
                push_str(&mut out, ": ");
                push_str(&mut out, message.as_str());
            },
            MarkItDownError::Io(e) => {
                push_str(&mut out, "I/O error: ");
                let ghost head = out@;
                let detail = io_error_text(e);
                push_str(&mut out, detail.as_str());
                assert(out@.subrange(0, head.len() as int) =~= head);
            },
        }
        let r = string_of(out.as_slice());
        r
    }
}

} // verus!
