//! Conversion engine that turns documents (text, HTML, CSV, JSON, XML, PDF,
//! DOCX, PPTX, XLSX, EPub and ZIP) named by a URI (`http`, `https`, `file`,
//! `data`) into Markdown.
//!
//! A conversion is a function of the URI, the configuration and the answers
//! to the outside work it asked for: [`convert`] either finishes or returns
//! the one step the caller must perform next (read a file, fetch a URL, call
//! Gemini), and is called again with the answers gathered so far.
pub mod bindings;
pub mod text;
pub mod util;
pub mod error;
pub mod number;
pub mod source;
pub mod detect;
pub mod xml;
pub mod registry;
pub mod converters;
pub mod gemini;
pub mod config;
pub mod step;
pub mod acquire;
pub mod server;

pub use acquire::{DataAcquirer, FileAcquirer, HttpAcquirer, HttpResponse};
pub use bindings::uri::WebUrl;
pub use config::EngineConfig;
pub use detect::DetectedFormat;
pub use error::MarkItDownError;
pub use gemini::route::{Attempt, Tier};
pub use gemini::{GeminiConfig, GeminiResponse, ModelTier};
pub use registry::{ConversionResult, Registry, ZipConverter};
pub use source::{Origin, SourceContent};
pub use step::{Answer, EpubBook, Extraction, GeminiCall, SheetData, Step};

use vstd::prelude::*;

use acquire::{source_result_view, spec_data_source, spec_http_source, HttpView};
use bindings::uri::spec_url_parse;
use bindings::view_option;
use error::ErrorView;
use gemini::config::tier_settings;
use step::{answers_view, AnswerView};
use registry::{source_view, spec_convert_at, Converted, SourceView, MAX_ZIP_DEPTH};
use step::StepView;
use text::{before_char, chars_eq_str, chars_of};

verus! {

/// The caller's answer to a [`Step::ReadFile`] or [`Step::Fetch`] step.
#[derive(Debug)]
pub enum Fetched {
    /// The bytes of the file, or the text of the reading error.
    File(Result<Vec<u8>, String>),
    /// The response, or the text of the client error (including an error
    /// status).
    Http(Result<HttpResponse, String>),
}

/// The plain value of a [`Fetched`].
pub enum FetchedView {
    File(Result<Seq<u8>, Seq<char>>),
    Http(Result<HttpView, Seq<char>>),
}

impl View for Fetched {
    type V = FetchedView;

    open spec fn view(&self) -> FetchedView {
        match self {
            Fetched::File(r) => FetchedView::File(bindings::view_result(*r)),
            Fetched::Http(r) => FetchedView::Http(bindings::view_result(*r)),
        }
    }
}

/// The inline limit of the Gemini route under a configuration (`None`: PDFs
/// are extracted locally).
pub open spec fn route_limit(config: EngineConfig) -> Option<nat> {
    match config.gemini {
        Some(g) => Some(g.inline_max_bytes as nat),
        None => None,
    }
}

/// The step reached by converting an acquired source, or the acquisition
/// error.
pub open spec fn convert_source(
    limit: Option<nat>,
    src: Result<SourceView, ErrorView>,
    replies: Seq<AnswerView>,
) -> StepView<Converted> {
    match src {
        Err(e) => StepView::Finished(Err(e)),
        Ok(s) => spec_convert_at(limit, s, MAX_ZIP_DEPTH as nat, replies, 0).0,
    }
}

/// The source made of a remote reply, or the acquisition error.
pub open spec fn http_source(url: Seq<char>, reply: Result<HttpView, Seq<char>>) -> Result<
    SourceView,
    ErrorView,
> {
    match reply {
        Ok(resp) => Ok(spec_http_source(resp)),
        Err(m) => Err(ErrorView::Acquire(url, m)),
    }
}

/// Whether `st` is a step that acquiring `uri` may reach, given the answer
/// to the file or fetch step (if any): an unparsable URI is `InvalidUri`;
/// `data:` content is decoded; `http`/`https` content is fetched first;
/// `file:` content is read first, from the local path the URL names (a URL
/// that names none is refused), under that path's file name (which depends
/// on the platform and is not stated here); any other scheme is
/// `UnsupportedScheme`.
pub open spec fn spec_acquire_uri(
    uri: Seq<char>,
    fetched: Option<FetchedView>,
    st: StepView<SourceView>,
) -> bool {
    match spec_url_parse(uri) {
        Err(e) => st == StepView::<SourceView>::Finished(Err(ErrorView::InvalidUri(uri + ": "@ + e))),
        Ok(url) => {
            let scheme = before_char(url, ':');
            if scheme == "file"@ {
                ||| st == StepView::<SourceView>::Finished(
                    Err(ErrorView::Acquire(url, "invalid file path in URI"@)),
                )
                ||| match fetched {
                    Some(FetchedView::File(Err(m))) => st == StepView::<SourceView>::Finished(
                        Err(ErrorView::Acquire(url, m)),
                    ),
                    Some(FetchedView::File(Ok(b))) => exists|name: Option<Seq<char>>|
                        st == StepView::<SourceView>::Finished(
                            Ok(#[trigger] file_source(b, name)),
                        ),
                    _ => st is ReadFile,
                }
            } else if scheme == "http"@ || scheme == "https"@ {
                st == match fetched {
                    Some(FetchedView::Http(reply)) => StepView::Finished(http_source(url, reply)),
                    _ => StepView::Fetch(url),
                }
            } else if scheme == "data"@ {
                st == StepView::<SourceView>::Finished(spec_data_source(url))
            } else {
                st == StepView::<SourceView>::Finished(Err(ErrorView::UnsupportedScheme(scheme)))
            }
        },
    }
}

/// The source made of a local file's bytes under a file name.
pub open spec fn file_source(bytes: Seq<u8>, name: Option<Seq<char>>) -> SourceView {
    SourceView { bytes, mime: None, filename: name, charset: None }
}

/// The step that converting reaches once acquisition has reached `a`: the
/// registry's conversion of acquired content, the acquisition error as it
/// is, or the acquisition's outside work.
pub open spec fn after_acquire(
    limit: Option<nat>,
    a: StepView<SourceView>,
    replies: Seq<AnswerView>,
) -> StepView<Converted> {
    match a {
        StepView::Finished(r) => convert_source(limit, r, replies),
        StepView::ReadFile => StepView::ReadFile,
        StepView::Fetch(u) => StepView::Fetch(u),
        StepView::CallGemini(c) => StepView::CallGemini(c),
        StepView::Extract(k, b) => StepView::Extract(k, b),
    }
}

/// Whether `st` is the step that converting `uri` reaches, given the answer
/// to the file or fetch step (if any) and the answers to the later outside
/// work: a step that acquiring `uri` reaches, followed by the registry's
/// conversion of what was acquired.
pub open spec fn spec_convert_uri(
    uri: Seq<char>,
    limit: Option<nat>,
    fetched: Option<FetchedView>,
    replies: Seq<AnswerView>,
    st: StepView<Converted>,
) -> bool {
    exists|a: StepView<SourceView>|
        spec_acquire_uri(uri, fetched, a) && st == #[trigger] after_acquire(limit, a, replies)
}

/// What acquiring `uri` gives once the answer to its fetch (if any) is
/// known: the source, or the acquisition error; `None` while a fetch is
/// still to be made, and for `file:` URLs, whose local path depends on the
/// platform.
pub open spec fn spec_acquired(uri: Seq<char>, fetched: Option<FetchedView>) -> Option<
    Result<SourceView, ErrorView>,
> {
    match spec_url_parse(uri) {
        Err(e) => Some(Err(ErrorView::InvalidUri(uri + ": "@ + e))),
        Ok(url) => {
            let scheme = before_char(url, ':');
            if scheme == "file"@ {
                None
            } else if scheme == "http"@ || scheme == "https"@ {
                match fetched {
                    Some(FetchedView::Http(reply)) => Some(http_source(url, reply)),
                    _ => None,
                }
            } else if scheme == "data"@ {
                Some(spec_data_source(url))
            } else {
                Some(Err(ErrorView::UnsupportedScheme(scheme)))
            }
        },
    }
}

/// Converting a URI is acquiring it and then converting what was acquired:
/// an acquisition error is the result as it is, with no converter run, and
/// acquired content converts exactly as the registry converts it. `file:`
/// URLs read a local file: their bytes convert the same way, under a file
/// name that depends on the platform.
pub proof fn lemma_convert_is_acquire_then_convert(
    uri: Seq<char>,
    limit: Option<nat>,
    fetched: Option<FetchedView>,
    replies: Seq<AnswerView>,
    st: StepView<Converted>,
)
    ensures
        spec_acquired(uri, fetched) matches Some(a) ==> (spec_convert_uri(
            uri,
            limit,
            fetched,
            replies,
            st,
        ) <==> st == convert_source(limit, a, replies)),
        spec_acquired(uri, fetched) matches Some(Err(e)) ==> (spec_convert_uri(
            uri,
            limit,
            fetched,
            replies,
            st,
        ) <==> st == StepView::<Converted>::Finished(Err(e))),
{
    if let Some(a) = spec_acquired(uri, fetched) {
        assert(spec_acquire_uri(uri, fetched, StepView::Finished(a)));
        assert(after_acquire(limit, StepView::Finished(a), replies) == convert_source(limit, a, replies));
        assert forall|x: StepView<SourceView>| spec_acquire_uri(uri, fetched, x) implies x
            == StepView::<SourceView>::Finished(a) by {}
    }
}

/// Whether a Gemini call asked for carries the settings of its tier under
/// `config`.
pub open spec fn call_matches_config<T>(config: EngineConfig, st: Step<T>) -> bool {
    st matches Step::CallGemini(c) ==> config.gemini is Some && c.model@ == tier_settings(
        config.gemini->Some_0@,
        c.tier,
    )
}

/// Acquires the document at `uri`: its content, or the acquisition error,
/// or the step that reads the file or fetches the URL, which `fetched`
/// answers.
pub fn acquire(uri: &str, fetched: Option<&Fetched>) -> (r: Step<SourceContent>)
    ensures
        spec_acquire_uri(
            uri@,
            match fetched {
                Some(f) => Some(f@),
                None => None,
            },
            r@,
        ),
{
    let url = match acquire::parse_uri(uri) {
        Ok(u) => u,
        Err(e) => return Step::Finished(Err(e)),
    };
    let scheme = url.scheme();
    let sc = chars_of(scheme.as_str());
    if chars_eq_str(sc.as_slice(), "file") {
        let path = match FileAcquirer.locate(&url) {
            Ok(p) => p,
            Err(e) => return Step::Finished(Err(e)),
        };
        match fetched {
            Some(Fetched::File(read)) => {
                let src = FileAcquirer.complete(&url, path, read);
                proof {
                    if let Ok(b) = read {
                        let s = src->Ok_0;
                        assert(source_view(&s) == file_source(b@, view_option(s.filename)));
                    }
                }
                Step::Finished(src)
            },
            _ => Step::ReadFile(path),
        }
    } else if chars_eq_str(sc.as_slice(), "http") || chars_eq_str(sc.as_slice(), "https") {
        match fetched {
            Some(Fetched::Http(reply)) => {
                let acquirer = HttpAcquirer::default();
                Step::Finished(acquirer.complete(&url, reply))
            },
            _ => Step::Fetch(url.duplicate()),
        }
    } else if chars_eq_str(sc.as_slice(), "data") {
        Step::Finished(DataAcquirer.acquire(&url))
    } else {
        Step::Finished(Err(MarkItDownError::UnsupportedScheme(scheme)))
    }
}

/// Converts the document at `uri` under `config`: acquires it, then
/// converts what was acquired with the registry. `fetched` answers the step
/// that reads the file or fetches the URL, and `replies` hold the answers
/// to the later outside work asked for so far, in order. Returns the
/// result, or the next piece of outside work to do.
pub fn convert(
    uri: &str,
    config: &EngineConfig,
    fetched: Option<&Fetched>,
    replies: &[Answer],
) -> (r: Step<ConversionResult>)
    ensures
        spec_convert_uri(
            uri@,
            route_limit(*config),
            match fetched {
                Some(f) => Some(f@),
                None => None,
            },
            answers_view(replies@),
            r@,
        ),
        call_matches_config(*config, r),
{
    let registry = Registry::with_config(config);
    let a = acquire(uri, fetched);
    let ghost av = a@;
    let r = match a {
        Step::Finished(Ok(src)) => registry.convert(&src, replies),
        Step::Finished(Err(e)) => Step::Finished(Err(e)),
        Step::ReadFile(p) => Step::ReadFile(p),
        Step::Fetch(u) => Step::Fetch(u),
        Step::CallGemini(c) => Step::CallGemini(c),
        Step::Extract(k, b) => Step::Extract(k, b),
    };
    assert(r@ == after_acquire(route_limit(*config), av, answers_view(replies@)));
    r
}

/// The Markdown body of a finished conversion; other steps unchanged.
pub open spec fn markdown_step(st: StepView<Converted>) -> StepView<Seq<char>> {
    match st {
        StepView::Finished(Ok(c)) => StepView::Finished(Ok(c.markdown)),
        StepView::Finished(Err(e)) => StepView::Finished(Err(e)),
        StepView::ReadFile => StepView::ReadFile,
        StepView::Fetch(u) => StepView::Fetch(u),
        StepView::CallGemini(c) => StepView::CallGemini(c),
        StepView::Extract(k, b) => StepView::Extract(k, b),
    }
}

/// Converts the document at `uri` like [`convert`], keeping only the
/// Markdown body.
pub fn convert_to_string(
    uri: &str,
    config: &EngineConfig,
    fetched: Option<&Fetched>,
    replies: &[Answer],
) -> (r: Step<String>)
    ensures
        exists|st: StepView<Converted>|
            spec_convert_uri(
                uri@,
                route_limit(*config),
                match fetched {
                    Some(f) => Some(f@),
                    None => None,
                },
                answers_view(replies@),
                st,
            ) && r@ == #[trigger] markdown_step(st),
        call_matches_config(*config, r),
{
    let st = convert(uri, config, fetched, replies);
    let ghost sv = st@;
    let r = match st {
        Step::Finished(Ok(c)) => Step::Finished(Ok(c.markdown)),
        Step::Finished(Err(e)) => Step::Finished(Err(e)),
        Step::ReadFile(p) => Step::ReadFile(p),
        Step::Fetch(u) => Step::Fetch(u),
        Step::CallGemini(c) => Step::CallGemini(c),
        Step::Extract(k, b) => Step::Extract(k, b),
    };
    assert(r@ == markdown_step(sv));
    r
}

/// The source made of bytes handed over directly, with optional file name
/// and MIME hints.
pub open spec fn bytes_source(
    bytes: Seq<u8>,
    filename: Option<Seq<char>>,
    mime: Option<Seq<char>>,
) -> SourceView {
    SourceView { bytes, mime, filename, charset: None }
}

/// Converts bytes already at hand (with optional file name and MIME hints)
/// under `config`, with `replies` the answers to the outside work asked for
/// so far, in order.
pub fn convert_bytes(
    bytes: Vec<u8>,
    filename: Option<String>,
    mime: Option<String>,
    config: &EngineConfig,
    replies: &[Answer],
) -> (r: Step<ConversionResult>)
    ensures
        r@ == spec_convert_at(
            route_limit(*config),
            bytes_source(bytes@, view_option(filename), view_option(mime)),
            MAX_ZIP_DEPTH as nat,
            answers_view(replies@),
            0,
        ).0,
        call_matches_config(*config, r),
{
    let source = SourceContent { bytes, mime, filename, charset: None, origin: Origin::Inline };
    let registry = Registry::with_config(config);
    registry.convert(&source, replies)
}

} // verus!
