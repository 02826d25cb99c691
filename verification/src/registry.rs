//! Conversion results and the dispatch from detected formats to converters.
use vstd::prelude::*;

use crate::bindings::view_option;
use crate::bindings::zip::{spec_zip_len, spec_zip_name_at, spec_zip_open, spec_zip_read, ZipReader};
use crate::config::EngineConfig;
use crate::converters::csv::{spec_csv, CsvConverter};
use crate::converters::docx::{spec_docx, DocxConverter};
use crate::converters::epub::{spec_epub, EpubConverter};
use crate::converters::html::{html_text, spec_html, HtmlConverter};
use vstd::utf8::encode_utf8;
use crate::converters::json::{spec_json, JsonConverter};
use crate::converters::pdf::{spec_pdf_local, PdfConverter};
use crate::converters::pptx::{lemma_slides_errors_are_decode, ordered_slides, spec_pptx, PptxConverter};
use crate::converters::text::{source_text, TextConverter};
use crate::converters::xlsx::{lemma_sheets_errors_are_decode, spec_xlsx, XlsxConverter};
use crate::converters::xml::{spec_xml, XmlConverter};
use crate::detect::{detect, spec_detect, spec_label, DetectedFormat};
use crate::error::{ErrorView, MarkItDownError};
use crate::gemini::config::{tier_settings, GeminiView};
use crate::gemini::route::{
    gemini_replies, lemma_route_uses_at_most_two_replies, spec_route, Route, RouteView,
};
use crate::gemini::GeminiConfig;
use crate::step::{
    answers_view, Answer, AnswerView, CallView, Extraction, GeminiCall, SheetData, Step, StepView,
    UNEXPECTED_ANSWER,
};
use crate::source::{Origin, SourceContent};
use crate::text::{chars_of, push_all, push_str, string_of, trim_end, trim_end_chars};

verus! {

/// The outcome of a conversion.
#[derive(Debug, Clone)]
pub struct ConversionResult {
    /// The Markdown body.
    pub markdown: String,
    /// The document's title, when one could be extracted.
    pub title: Option<String>,
}

/// The plain value of a [`ConversionResult`].
pub struct Converted {
    pub markdown: Seq<char>,
    pub title: Option<Seq<char>>,
}

impl View for ConversionResult {
    type V = Converted;

    open spec fn view(&self) -> Converted {
        Converted { markdown: self.markdown@, title: view_option(self.title) }
    }
}

/// A result with a body and no title.
pub open spec fn untitled(markdown: Seq<char>) -> Converted {
    Converted { markdown, title: None }
}

impl ConversionResult {
    /// A result with no title.
    pub fn text(markdown: String) -> (r: Self)
        ensures
            r@ == untitled(markdown@),
    {
        ConversionResult { markdown, title: None }
    }
}

impl Default for ConversionResult {
    fn default() -> (r: Self)
        ensures
            r@ == untitled(Seq::empty()),
    {
        ConversionResult { markdown: String::new(), title: None }
    }
}

/// Everything that format detection and conversion read of a source.
pub struct SourceView {
    pub bytes: Seq<u8>,
    pub mime: Option<Seq<char>>,
    pub filename: Option<Seq<char>>,
    pub charset: Option<Seq<char>>,
}

impl View for SourceContent {
    type V = SourceView;

    open spec fn view(&self) -> SourceView {
        source_view(self)
    }
}

/// The plain value of a source.
pub open spec fn source_view(src: &SourceContent) -> SourceView {
    SourceView {
        bytes: src.bytes@,
        mime: view_option(src.mime),
        filename: view_option(src.filename),
        charset: view_option(src.charset),
    }
}

/// How deep ZIP archives may nest inside each other. Each nesting level is
/// one level of recursion; the limit keeps the recursion finite for any
/// input (an archive can contain a copy of itself).
pub const MAX_ZIP_DEPTH: usize = 64;

/// The text of an error as its message shows it (`Io` errors by their
/// prefix only).
pub open spec fn error_text(e: ErrorView) -> Seq<char> {
    match e {
        ErrorView::UnsupportedScheme(s) => "unsupported URI scheme: '"@ + s
            + "' (supported: http, https, file, data)"@,
        ErrorView::InvalidUri(s) => "invalid URI: "@ + s,
        ErrorView::Acquire(uri, message) => "failed to acquire content from '"@ + uri + "': "@
            + message,
        ErrorView::UnsupportedFormat(s) => "unsupported format: "@ + s,
        ErrorView::Decode(format, message) => "failed to decode "@ + format + ": "@ + message,
        ErrorView::Io => "I/O error: "@,
    }
}

/// The hint in an unsupported-format error: the file name, else the MIME
/// type, else the format's label.
pub open spec fn unsupported_hint(s: SourceView, fmt: DetectedFormat) -> Seq<char> {
    match s.filename {
        Some(f) => f,
        None => match s.mime {
            Some(m) => m,
            None => spec_label(fmt),
        },
    }
}

/// The step a PDF's Gemini route is at.
pub open spec fn pdf_step(r: (RouteView, nat), pdf: Seq<u8>) -> (StepView<Converted>, nat) {
    match r.0 {
        RouteView::Finished(res) => (StepView::Finished(res), r.1),
        RouteView::Call(tier) => (StepView::CallGemini(CallView { tier, pdf }), r.1),
    }
}

/// An archive's result made of its entries' step: the joined Markdown with
/// trailing whitespace removed once every entry is done.
pub open spec fn zip_finish(st: StepView<Converted>) -> StepView<Converted> {
    match st {
        StepView::Finished(Ok(c)) => StepView::Finished(Ok(untitled(trim_end(c.markdown)))),
        other => other,
    }
}

/// The format named in the error of an extraction.
pub open spec fn extraction_format(kind: Extraction) -> Seq<char> {
    match kind {
        Extraction::PdfText => "pdf"@,
        Extraction::EpubBook => "epub"@,
        Extraction::Workbook => "xlsx"@,
        Extraction::HtmlMarkdown => "html"@,
    }
}

/// What an extraction runs on: the HTML text's UTF-8 encoding for HTML,
/// the source's bytes otherwise.
pub open spec fn extraction_input(kind: Extraction, s: SourceView) -> Seq<u8> {
    match kind {
        Extraction::HtmlMarkdown => encode_utf8(html_text(s.bytes, s.charset)),
        _ => s.bytes,
    }
}

/// What an answer to an extraction yields: the result of the format's
/// converter on it, or an error when the answer is of another kind.
pub open spec fn extracted(kind: Extraction, s: SourceView, answer: AnswerView) -> Result<
    Converted,
    ErrorView,
> {
    match (kind, answer) {
        (Extraction::PdfText, AnswerView::PdfText(r)) => spec_pdf_local(r),
        (Extraction::EpubBook, AnswerView::EpubBook(r)) => spec_epub(r),
        (Extraction::Workbook, AnswerView::Workbook(r)) => spec_xlsx(r),
        (Extraction::HtmlMarkdown, AnswerView::HtmlMarkdown(r)) => spec_html(
            html_text(s.bytes, s.charset),
            r,
        ),
        _ => Err(ErrorView::Decode(extraction_format(kind), UNEXPECTED_ANSWER@)),
    }
}

/// The step of a source converted from an extraction: the answer at `pos`
/// converted, or the extraction to run when the answers have run out.
pub open spec fn extract_step(
    kind: Extraction,
    s: SourceView,
    replies: Seq<AnswerView>,
    pos: nat,
) -> (StepView<Converted>, nat) {
    if pos < replies.len() {
        (StepView::Finished(extracted(kind, s, replies[pos as int])), pos + 1)
    } else {
        (StepView::Extract(kind, extraction_input(kind, s)), pos)
    }
}

/// What converting a source yields, with `limit` the inline limit of the
/// Gemini route (`None`: PDFs are extracted locally), `depth` the ZIP
/// nesting still allowed, and `replies`/`pos` the answers to the outside
/// work done so far and the first one not yet used. Returns the step
/// reached and the position after the answers used.
pub open spec fn spec_convert_at(
    limit: Option<nat>,
    s: SourceView,
    depth: nat,
    replies: Seq<AnswerView>,
    pos: nat,
) -> (StepView<Converted>, nat)
    decreases depth, 0nat, 0nat,
{
    let fmt = spec_detect(s.bytes, s.filename, s.mime);
    match fmt {
        DetectedFormat::PlainText => (
            StepView::Finished(Ok(untitled(source_text(s.bytes, s.charset)))),
            pos,
        ),
        DetectedFormat::Html => extract_step(Extraction::HtmlMarkdown, s, replies, pos),
        DetectedFormat::Csv => (StepView::Finished(spec_csv(s.bytes, s.charset, s.filename)), pos),
        DetectedFormat::Json => (StepView::Finished(spec_json(s.bytes, s.charset)), pos),
        DetectedFormat::Xml => (StepView::Finished(Ok(spec_xml(s.bytes, s.charset))), pos),
        DetectedFormat::Pdf => match limit {
            None => extract_step(Extraction::PdfText, s, replies, pos),
            Some(l) => pdf_step(spec_route(l, s.bytes.len(), gemini_replies(replies), pos), s.bytes),
        },
        DetectedFormat::Docx => (StepView::Finished(spec_docx(s.bytes)), pos),
        DetectedFormat::Pptx => (StepView::Finished(spec_pptx(s.bytes)), pos),
        DetectedFormat::Xlsx => extract_step(Extraction::Workbook, s, replies, pos),
        DetectedFormat::Epub => extract_step(Extraction::EpubBook, s, replies, pos),
        DetectedFormat::Zip => if depth == 0 {
            (StepView::Finished(Err(ErrorView::Decode("zip"@, "archives nested too deeply"@))), pos)
        } else {
            match spec_zip_open(s.bytes) {
                Err(e) => (StepView::Finished(Err(ErrorView::Decode("zip"@, e))), pos),
                Ok(_) => {
                    let (st, p) = zip_entries(
                        limit,
                        s.bytes,
                        spec_zip_len(s.bytes),
                        (depth - 1) as nat,
                        replies,
                        pos,
                    );
                    (zip_finish(st), p)
                },
            }
        },
        DetectedFormat::Unknown => (
            StepView::Finished(Err(ErrorView::UnsupportedFormat(unsupported_hint(s, fmt)))),
            pos,
        ),
    }
}

/// Whether an entry name names a directory: it ends with `/` or `\\`
/// (`ZipFile::is_dir`).
pub open spec fn names_dir(name: Seq<char>) -> bool {
    name.len() > 0 && (name.last() == '/' || name.last() == '\\')
}

/// Whether an entry name names a directory.
pub fn is_dir_name(name: &str) -> (r: bool)
    ensures
        r == names_dir(name@),
{
    let c = chars_of(name);
    let n = c.len();
    n > 0 && (c[n - 1] == '/' || c[n - 1] == '\\')
}

/// What reading entry `i` of an archive yields: its name, whether it is a
/// directory, and its content (`None` when reading it fails), or the error
/// opening it.
pub open spec fn spec_zip_entry_at(bytes: Seq<u8>, i: nat) -> Result<
    (Seq<char>, bool, Option<Seq<u8>>),
    Seq<char>,
> {
    match spec_zip_read(bytes, i) {
        Err(e) => Err(e),
        Ok(content) => {
            let name = match spec_zip_name_at(bytes, i) {
                Some(n) => n,
                None => Seq::empty(),
            };
            Ok((name, names_dir(name), content))
        },
    }
}

/// The source made of an archive entry.
pub open spec fn entry_source(name: Seq<char>, content: Seq<u8>) -> SourceView {
    SourceView { bytes: content, mime: None, filename: Some(name), charset: None }
}

/// The Markdown of an entry's conversion: the Markdown with trailing
/// whitespace removed, or a note saying why the entry was skipped.
pub open spec fn entry_body(r: Result<Converted, ErrorView>) -> Seq<char> {
    match r {
        Ok(res) => trim_end(res.markdown) + seq!['\n', '\n'],
        Err(e) => "_(skipped: "@ + error_text(e) + ")_\n\n"@,
    }
}

/// The Markdown of the first `n` entries of an archive, as an untitled
/// result: each file under a `### name` heading, followed by its converted
/// Markdown or a note saying why it was skipped; directories are left out.
/// An entry that cannot be opened makes the whole archive fail; an entry
/// that waits for a Gemini call makes the whole archive wait for it.
pub open spec fn zip_entries(
    limit: Option<nat>,
    bytes: Seq<u8>,
    n: nat,
    depth: nat,
    replies: Seq<AnswerView>,
    pos: nat,
) -> (StepView<Converted>, nat)
    decreases depth, 1nat, n,
{
    if n == 0 {
        (StepView::Finished(Ok(untitled(Seq::empty()))), pos)
    } else {
        let (prev, p) = zip_entries(limit, bytes, (n - 1) as nat, depth, replies, pos);
        match prev {
            StepView::Finished(Ok(acc)) => match spec_zip_entry_at(bytes, (n - 1) as nat) {
                Err(e) => (StepView::Finished(Err(ErrorView::Decode("zip"@, e))), p),
                Ok((name, is_dir, content)) => if is_dir {
                    (prev, p)
                } else {
                    match content {
                        None => (
                            StepView::Finished(
                                Ok(
                                    untitled(
                                        acc.markdown + "### "@ + name
                                            + "\n\n_(skipped: read error)_\n\n"@,
                                    ),
                                ),
                            ),
                            p,
                        ),
                        Some(c) => {
                            let (r, p2) = spec_convert_at(
                                limit,
                                entry_source(name, c),
                                depth,
                                replies,
                                p,
                            );
                            match r {
                                StepView::Finished(res) => (
                                    StepView::Finished(
                                        Ok(
                                            untitled(
                                                acc.markdown + "### "@ + name + seq!['\n', '\n']
                                                    + entry_body(res),
                                            ),
                                        ),
                                    ),
                                    p2,
                                ),
                                other => (other, p2),
                            }
                        },
                    }
                },
            },
            other => (other, p),
        }
    }
}

/// A reply's position never moves backwards, and never past the replies
/// supplied.
pub proof fn lemma_positions_advance(
    limit: Option<nat>,
    s: SourceView,
    depth: nat,
    replies: Seq<AnswerView>,
    pos: nat,
)
    requires
        pos <= replies.len(),
    ensures
        pos <= spec_convert_at(limit, s, depth, replies, pos).1 <= replies.len(),
    decreases depth, 0nat, 0nat,
{
    let fmt = spec_detect(s.bytes, s.filename, s.mime);
    if fmt == DetectedFormat::Zip && depth > 0 {
        if spec_zip_open(s.bytes) is Ok {
            lemma_entries_advance(limit, s.bytes, spec_zip_len(s.bytes), (depth - 1) as nat, replies, pos);
        }
    }
    if fmt == DetectedFormat::Pdf {
        if let Some(l) = limit {
            lemma_route_uses_at_most_two_replies(l, s.bytes.len(), gemini_replies(replies), pos);
        }
    }
}

proof fn lemma_entries_advance(
    limit: Option<nat>,
    bytes: Seq<u8>,
    n: nat,
    depth: nat,
    replies: Seq<AnswerView>,
    pos: nat,
)
    requires
        pos <= replies.len(),
    ensures
        pos <= zip_entries(limit, bytes, n, depth, replies, pos).1 <= replies.len(),
    decreases depth, 1nat, n,
{
    if n > 0 {
        lemma_entries_advance(limit, bytes, (n - 1) as nat, depth, replies, pos);
        let (prev, p) = zip_entries(limit, bytes, (n - 1) as nat, depth, replies, pos);
        if let StepView::Finished(Ok(_)) = prev {
            if let Ok((name, is_dir, content)) = spec_zip_entry_at(bytes, (n - 1) as nat) {
                if !is_dir {
                    if let Some(c) = content {
                        lemma_positions_advance(limit, entry_source(name, c), depth, replies, p);
                    }
                }
            }
        }
    }
}

/// Once the entries so far have failed or wait for a call, further entries
/// change nothing.
proof fn lemma_entries_halt_sticks(
    limit: Option<nat>,
    bytes: Seq<u8>,
    k: nat,
    n: nat,
    depth: nat,
    replies: Seq<AnswerView>,
    pos: nat,
)
    requires
        k <= n,
        !(zip_entries(limit, bytes, k, depth, replies, pos).0 matches StepView::Finished(Ok(_))),
    ensures
        zip_entries(limit, bytes, n, depth, replies, pos) == zip_entries(
            limit,
            bytes,
            k,
            depth,
            replies,
            pos,
        ),
    decreases n - k,
{
    if k < n {
        lemma_entries_halt_sticks(limit, bytes, k, (n - 1) as nat, depth, replies, pos);
    }
}

/// Whether a step is an `Io` error.
pub open spec fn is_io_failure(st: StepView<Converted>) -> bool {
    st matches StepView::Finished(Err(ErrorView::Io))
}

/// No conversion fails with an `Io` error.
proof fn lemma_no_io_failure(
    limit: Option<nat>,
    s: SourceView,
    depth: nat,
    replies: Seq<AnswerView>,
    pos: nat,
)
    ensures
        !is_io_failure(spec_convert_at(limit, s, depth, replies, pos).0),
    decreases depth, 0nat, 0nat,
{
    let fmt = spec_detect(s.bytes, s.filename, s.mime);
    lemma_slides_errors_are_decode(s.bytes, ordered_slides(s.bytes));
    if pos < replies.len() {
        if let AnswerView::Workbook(Ok(sheets)) = replies[pos as int] {
            lemma_sheets_errors_are_decode(sheets);
        }
    }
    if fmt == DetectedFormat::Zip && depth > 0 {
        if spec_zip_open(s.bytes) is Ok {
            lemma_entries_no_io_failure(limit, s.bytes, spec_zip_len(s.bytes), (depth - 1) as nat, replies, pos);
        }
    }
}

proof fn lemma_entries_no_io_failure(
    limit: Option<nat>,
    bytes: Seq<u8>,
    n: nat,
    depth: nat,
    replies: Seq<AnswerView>,
    pos: nat,
)
    ensures
        !is_io_failure(zip_entries(limit, bytes, n, depth, replies, pos).0),
    decreases depth, 1nat, n,
{
    if n > 0 {
        lemma_entries_no_io_failure(limit, bytes, (n - 1) as nat, depth, replies, pos);
        let (prev, p) = zip_entries(limit, bytes, (n - 1) as nat, depth, replies, pos);
        if let StepView::Finished(Ok(_)) = prev {
            if let Ok((name, is_dir, content)) = spec_zip_entry_at(bytes, (n - 1) as nat) {
                if !is_dir {
                    if let Some(c) = content {
                        lemma_no_io_failure(limit, entry_source(name, c), depth, replies, p);
                    }
                }
            }
        }
    }
}

/// The answers supplied, by their views.
pub open spec fn replies_view(replies: &[Answer]) -> Seq<AnswerView> {
    answers_view(replies@)
}

/// Maps detected formats to their converters.
pub struct Registry {
    pdf: PdfConverter,
}

/// Extracts a ZIP archive and converts each entry through the registry.
pub struct ZipConverter;

impl Registry {
    /// The settings of the Gemini route, when PDFs go through it.
    pub closed spec fn settings(&self) -> Option<GeminiView> {
        self.pdf.settings()
    }

    /// The inline limit of the Gemini route, when PDFs go through it.
    pub open spec fn route_limit(&self) -> Option<nat> {
        match self.settings() {
            Some(c) => Some(c.inline_max_bytes),
            None => None,
        }
    }

    /// Whether a Gemini call asked for carries the settings of its tier.
    pub open spec fn call_settings_hold(&self, st: Step<ConversionResult>) -> bool {
        st matches Step::CallGemini(c) ==> self.settings() is Some && c.model@ == tier_settings(
            self.settings()->Some_0,
            c.tier,
        )
    }

    /// The registry for an explicit configuration. Only PDF conversion
    /// depends on it.
    pub fn with_config(config: &EngineConfig) -> (r: Self)
        ensures
            r.settings() == view_option(config.gemini),
    {
        let gemini: Option<GeminiConfig> = match &config.gemini {
            Some(g) => Some(g.duplicate()),
            None => None,
        };
        Registry { pdf: PdfConverter::new(gemini) }
    }

    /// The Gemini configuration, when PDFs go through the Gemini route.
    pub fn gemini(&self) -> (r: &Option<GeminiConfig>)
        ensures
            view_option(*r) == self.settings(),
    {
        self.pdf.gemini()
    }

    /// Detects the format of `src` and converts it with the matching
    /// converter (`UnsupportedFormat` when none handles it). PDFs on the
    /// Gemini route read the outcomes of their calls, in order, from
    /// `replies`; when those run out, the step names the call to make next.
    pub fn convert(&self, src: &SourceContent, replies: &[Answer]) -> (r: Step<
        ConversionResult,
    >)
        ensures
            r@ == spec_convert_at(
                self.route_limit(),
                source_view(src),
                MAX_ZIP_DEPTH as nat,
                replies_view(replies),
                0,
            ).0,
            self.call_settings_hold(r),
    {
        let (r, _) = self.convert_at(src, MAX_ZIP_DEPTH, replies, 0);
        r
    }

    /// The step of a source converted from an extraction.
    fn extract_at(&self, kind: Extraction, src: &SourceContent, replies: &[Answer], pos: usize) -> (r: (
        Step<ConversionResult>,
        usize,
    ))
        requires
            pos <= replies@.len(),
        ensures
            (r.0@, r.1 as nat) == extract_step(kind, source_view(src), replies_view(replies), pos as nat),
    {
        if pos >= replies.len() {
            let input = match kind {
                Extraction::HtmlMarkdown => {
                    let text = HtmlConverter.text(src);
                    vstd::slice::slice_to_vec(text.as_str().as_bytes())
                },
                _ => src.bytes.clone(),
            };
            return (Step::Extract(kind, input), pos);
        }
        let res = match (kind, &replies[pos]) {
            (Extraction::HtmlMarkdown, Answer::HtmlMarkdown(m)) => HtmlConverter.convert(src, m),
            (Extraction::PdfText, Answer::PdfText(t)) => self.pdf.convert_local(t),
            (Extraction::EpubBook, Answer::EpubBook(b)) => EpubConverter.convert(b),
            (Extraction::Workbook, Answer::Workbook(w)) => XlsxConverter.convert(w),
            _ => {
                let format = match kind {
                    Extraction::PdfText => "pdf",
                    Extraction::EpubBook => "epub",
                    Extraction::Workbook => "xlsx",
                    Extraction::HtmlMarkdown => "html",
                };
                Err(MarkItDownError::decode(String::from_str(format), String::from_str(UNEXPECTED_ANSWER)))
            },
        };
        (Step::Finished(res), pos + 1)
    }

    pub(crate) fn convert_at(
        &self,
        src: &SourceContent,
        depth: usize,
        replies: &[Answer],
        pos: usize,
    ) -> (r: (Step<ConversionResult>, usize))
        requires
            pos <= replies@.len(),
        ensures
            (r.0@, r.1 as nat) == spec_convert_at(
                self.route_limit(),
                source_view(src),
                depth as nat,
                replies_view(replies),
                pos as nat,
            ),
            pos <= r.1 <= replies@.len(),
            !(r.0 matches Step::Finished(Err(MarkItDownError::Io(_)))),
            self.call_settings_hold(r.0),
        decreases depth, 0nat, 0nat,
    {
        proof {
            lemma_positions_advance(
                self.route_limit(),
                source_view(src),
                depth as nat,
                replies_view(replies),
                pos as nat,
            );
            lemma_no_io_failure(
                self.route_limit(),
                source_view(src),
                depth as nat,
                replies_view(replies),
                pos as nat,
            );
        }
        let fmt = detect(src);
        match fmt {
            DetectedFormat::PlainText => (Step::Finished(Ok(TextConverter.convert(src))), pos),
            DetectedFormat::Html => self.extract_at(Extraction::HtmlMarkdown, src, replies, pos),
            DetectedFormat::Csv => (Step::Finished(CsvConverter.convert(src)), pos),
            DetectedFormat::Json => (Step::Finished(JsonConverter.convert(src)), pos),
            DetectedFormat::Xml => (Step::Finished(Ok(XmlConverter.convert(src))), pos),
            DetectedFormat::Pdf => match self.pdf.gemini() {
                None => self.extract_at(Extraction::PdfText, src, replies, pos),
                Some(cfg) => {
                    let (route, p) = self.pdf.convert_gemini(cfg, src, replies, pos);
                    match route {
                        Route::Finished(res) => (Step::Finished(res), p),
                        Route::Call(tier) => {
                            let call = GeminiCall {
                                tier,
                                model: cfg.tier(tier).duplicate(),
                                pdf: src.bytes.clone(),
                            };
                            (Step::CallGemini(call), p)
                        },
                    }
                },
            },
            DetectedFormat::Docx => (Step::Finished(DocxConverter.convert(src)), pos),
            DetectedFormat::Pptx => (Step::Finished(PptxConverter.convert(src)), pos),
            DetectedFormat::Xlsx => self.extract_at(Extraction::Workbook, src, replies, pos),
            DetectedFormat::Epub => self.extract_at(Extraction::EpubBook, src, replies, pos),
            DetectedFormat::Zip => {
                if depth == 0 {
                    (
                        Step::Finished(
                            Err(
                                MarkItDownError::decode(
                                    String::from_str("zip"),
                                    String::from_str("archives nested too deeply"),
                                ),
                            ),
                        ),
                        pos,
                    )
                } else {
                    ZipConverter.convert(src.bytes.as_slice(), self, depth - 1, replies, pos)
                }
            },
            DetectedFormat::Unknown => {
                let hint = match &src.filename {
                    Some(f) => f.clone(),
                    None => match &src.mime {
                        Some(m) => m.clone(),
                        None => String::from_str(fmt.label()),
                    },
                };
                (Step::Finished(Err(MarkItDownError::UnsupportedFormat(hint))), pos)
            },
        }
    }
}

/// What an archive converts to.
pub open spec fn spec_zip(
    limit: Option<nat>,
    bytes: Seq<u8>,
    depth: nat,
    replies: Seq<AnswerView>,
    pos: nat,
) -> (StepView<Converted>, nat) {
    match spec_zip_open(bytes) {
        Err(e) => (StepView::Finished(Err(ErrorView::Decode("zip"@, e))), pos),
        Ok(_) => {
            let (st, p) = zip_entries(limit, bytes, spec_zip_len(bytes), depth, replies, pos);
            (zip_finish(st), p)
        },
    }
}

impl ZipConverter {
    /// Converts every file of the archive `bytes` through `ctx` and joins the
    /// results under `### name` headings.
    pub fn convert(
        &self,
        bytes: &[u8],
        ctx: &Registry,
        depth: usize,
        replies: &[Answer],
        pos: usize,
    ) -> (r: (Step<ConversionResult>, usize))
        requires
            pos <= replies@.len(),
        ensures
            (r.0@, r.1 as nat) == spec_zip(
                ctx.route_limit(),
                bytes@,
                depth as nat,
                replies_view(replies),
                pos as nat,
            ),
            pos <= r.1 <= replies@.len(),
            !(r.0 matches Step::Finished(Err(MarkItDownError::Io(_)))),
            ctx.call_settings_hold(r.0),
        decreases depth, 1nat, 0nat,
    {
        let mut archive = match ZipReader::open(bytes) {
            Ok(a) => a,
            Err(e) => return (
                Step::Finished(Err(MarkItDownError::decode(String::from_str("zip"), e))),
                pos,
            ),
        };
        let ghost limit = ctx.route_limit();
        let ghost rv = replies_view(replies);
        let n = archive.len();
        let mut markdown: Vec<char> = Vec::new();
        let mut p = pos;
        let mut i: usize = 0;
        while i < n
            invariant
                i <= n == spec_zip_len(bytes@),
                archive@ == bytes@,
                spec_zip_open(bytes@) is Ok,
                limit == ctx.route_limit(),
                rv == replies_view(replies),
                pos <= p <= replies@.len(),
                zip_entries(limit, bytes@, i as nat, depth as nat, rv, pos as nat) == (
                    StepView::Finished(Ok::<Converted, ErrorView>(untitled(markdown@))),
                    p as nat,
                ),
            decreases n - i,
        {
            match archive.read_entry(i) {
                Err(e) => {
                    let err = MarkItDownError::decode(String::from_str("zip"), e);
                    proof {
                        lemma_entries_halt_sticks(
                            limit,
                            bytes@,
                            i as nat + 1,
                            n as nat,
                            depth as nat,
                            rv,
                            pos as nat,
                        );
                    }
                    return (Step::Finished(Err(err)), p);
                },
                Ok(read) => {
                    let ghost md0 = markdown@;
                    let name = match archive.name_for_index(i) {
                        Some(n) => n,
                        None => String::new(),
                    };
                    if !is_dir_name(name.as_str()) {
                        match read {
                            None => {
                                push_str(&mut markdown, "### ");
                                push_str(&mut markdown, name.as_str());
                                push_str(&mut markdown, "\n\n_(skipped: read error)_\n\n");
                                assert(markdown@ =~= md0 + "### "@ + name@
                                    + "\n\n_(skipped: read error)_\n\n"@);
                            },
                            Some(content) => {
                                push_str(&mut markdown, "### ");
                                push_str(&mut markdown, name.as_str());
                                markdown.push('\n');
                                markdown.push('\n');
                                assert(markdown@ =~= md0 + "### "@ + name@ + seq!['\n', '\n']);
                                let inner = SourceContent {
                                    bytes: content,
                                    mime: None,
                                    filename: Some(name),
                                    charset: None,
                                    origin: Origin::Inline,
                                };
                                proof {
                                    assert(source_view(&inner) == entry_source(
                                        inner.filename->Some_0@,
                                        inner.bytes@,
                                    ));
                                }
                                let ghost head = markdown@;
                                let (r, p2) = ctx.convert_at(&inner, depth, replies, p);
                                match r {
                                    Step::Finished(Ok(res)) => {
                                        let m = chars_of(res.markdown.as_str());
                                        let t = trim_end_chars(m.as_slice());
                                        push_all(&mut markdown, t.as_slice());
                                        markdown.push('\n');
                                        markdown.push('\n');
                                        assert(markdown@ =~= head + entry_body(Ok(res@)));
                                    },
                                    Step::Finished(Err(e)) => {
                                        let msg = e.message();
                                        push_str(&mut markdown, "_(skipped: ");
                                        push_str(&mut markdown, msg.as_str());
                                        push_str(&mut markdown, ")_\n\n");
                                        assert(markdown@ =~= head + entry_body(Err(e@)));
                                    },
                                    other => {
                                        proof {
                                            lemma_entries_halt_sticks(
                                                limit,
                                                bytes@,
                                                i as nat + 1,
                                                n as nat,
                                                depth as nat,
                                                rv,
                                                pos as nat,
                                            );
                                        }
                                        return (other, p2);
                                    },
                                }
                                p = p2;
                            },
                        }
                    }
                },
            }
            i += 1;
        }
        let t = trim_end_chars(markdown.as_slice());
        (Step::Finished(Ok(ConversionResult::text(string_of(t.as_slice())))), p)
    }
}

/// Without a Gemini configuration a conversion never asks for a Gemini
/// call.
pub proof fn lemma_local_conversion_never_calls_gemini(
    s: SourceView,
    depth: nat,
    replies: Seq<AnswerView>,
    pos: nat,
)
    ensures
        !(spec_convert_at(None, s, depth, replies, pos).0 is CallGemini),
    decreases depth, 0nat, 0nat,
{
    let fmt = spec_detect(s.bytes, s.filename, s.mime);
    if fmt == DetectedFormat::Zip && depth > 0 {
        if spec_zip_open(s.bytes) is Ok {
            lemma_local_entries_never_call(s.bytes, spec_zip_len(s.bytes), (depth - 1) as nat, replies, pos);
        }
    }
}

proof fn lemma_local_entries_never_call(
    bytes: Seq<u8>,
    n: nat,
    depth: nat,
    replies: Seq<AnswerView>,
    pos: nat,
)
    ensures
        !(zip_entries(None, bytes, n, depth, replies, pos).0 is CallGemini),
    decreases depth, 1nat, n,
{
    if n > 0 {
        lemma_local_entries_never_call(bytes, (n - 1) as nat, depth, replies, pos);
        let (prev, p) = zip_entries(None, bytes, (n - 1) as nat, depth, replies, pos);
        if let StepView::Finished(Ok(_)) = prev {
            if let Ok((name, is_dir, content)) = spec_zip_entry_at(bytes, (n - 1) as nat) {
                if !is_dir {
                    if let Some(c) = content {
                        lemma_local_conversion_never_calls_gemini(entry_source(name, c), depth, replies, p);
                    }
                }
            }
        }
    }
}

/// A source fails as unsupported exactly when its format is not
/// recognised, and then with its hint: the file name, else the MIME type,
/// else the format's label. Every other format is handed to its converter.
pub proof fn lemma_unsupported_exactly_when_unknown(
    limit: Option<nat>,
    s: SourceView,
    depth: nat,
    replies: Seq<AnswerView>,
    pos: nat,
)
    requires
        pos <= replies.len(),
    ensures
        (spec_convert_at(limit, s, depth, replies, pos).0 matches StepView::Finished(
            Err(ErrorView::UnsupportedFormat(_)),
        )) <==> spec_detect(s.bytes, s.filename, s.mime) == DetectedFormat::Unknown,
        spec_detect(s.bytes, s.filename, s.mime) == DetectedFormat::Unknown ==> spec_convert_at(
            limit,
            s,
            depth,
            replies,
            pos,
        ) == (
            StepView::<Converted>::Finished(
                Err(ErrorView::UnsupportedFormat(unsupported_hint(s, DetectedFormat::Unknown))),
            ),
            pos,
        ),
{
    let fmt = spec_detect(s.bytes, s.filename, s.mime);
    lemma_slides_errors_are_decode(s.bytes, ordered_slides(s.bytes));
    if pos < replies.len() {
        if let AnswerView::Workbook(Ok(sheets)) = replies[pos as int] {
            lemma_sheets_errors_are_decode(sheets);
        }
    }
    if fmt == DetectedFormat::Zip && depth > 0 {
        lemma_archive_fails_only_as_a_whole(limit, s.bytes, (depth - 1) as nat, replies, pos);
    }
    if fmt == DetectedFormat::Pdf {
        if let Some(l) = limit {
            crate::gemini::route::lemma_route_never_falls_back(l, s.bytes.len(), gemini_replies(replies), pos);
        }
    }
}

/// The Markdown of the first `n` entries of an archive, given the outcome
/// of each file entry's conversion: each file adds `### name`, a blank line
/// and then its converted Markdown without trailing whitespace, or
/// `_(skipped: …)_` with why its conversion failed or why it could not be
/// read; directories add nothing.
pub open spec fn entries_text(
    bytes: Seq<u8>,
    n: nat,
    outcomes: Seq<Result<Converted, ErrorView>>,
) -> Seq<char>
    decreases n,
{
    if n == 0 {
        Seq::empty()
    } else {
        entries_text(bytes, (n - 1) as nat, outcomes) + match spec_zip_entry_at(bytes, (n - 1) as nat) {
            Ok((name, is_dir, content)) => if is_dir {
                Seq::empty()
            } else {
                match content {
                    None => "### "@ + name + "\n\n_(skipped: read error)_\n\n"@,
                    Some(_) => "### "@ + name + seq!['\n', '\n'] + entry_body(outcomes[n - 1]),
                }
            },
            Err(_) => Seq::empty(),
        }
    }
}

/// Whether `outcomes` are what the file entries among the first `n` of an
/// archive converted to.
pub open spec fn entry_outcomes(
    limit: Option<nat>,
    bytes: Seq<u8>,
    n: nat,
    depth: nat,
    replies: Seq<AnswerView>,
    outcomes: Seq<Result<Converted, ErrorView>>,
) -> bool {
    &&& outcomes.len() == n
    &&& forall|i: nat|
        i < n ==> (#[trigger] spec_zip_entry_at(bytes, i) matches Ok((name, is_dir, Some(c)))
            ==> is_dir || exists|p: nat|
            spec_convert_at(limit, entry_source(name, c), depth, replies, p).0
                == StepView::<Converted>::Finished(outcomes[i as int]))
}

proof fn lemma_entries_text_prefix(
    bytes: Seq<u8>,
    n: nat,
    outcomes: Seq<Result<Converted, ErrorView>>,
    more: Seq<Result<Converted, ErrorView>>,
)
    requires
        outcomes.len() == n,
    ensures
        entries_text(bytes, n, outcomes) == entries_text(bytes, n, outcomes + more),
    decreases n,
{
    if n > 0 {
        lemma_entries_text_prefix(bytes, (n - 1) as nat, outcomes.drop_last(), more);
        lemma_entries_text_prefix(bytes, (n - 1) as nat, outcomes.drop_last(), seq![outcomes.last()] + more);
        assert(outcomes.drop_last() + (seq![outcomes.last()] + more) =~= outcomes + more);
        lemma_entries_text_prefix(bytes, (n - 1) as nat, outcomes.drop_last(), seq![outcomes.last()]);
        assert(outcomes.drop_last() + seq![outcomes.last()] =~= outcomes);
        assert((outcomes + more)[n - 1] == outcomes[n - 1]);
    }
}

proof fn lemma_entries_outcomes(
    limit: Option<nat>,
    bytes: Seq<u8>,
    n: nat,
    depth: nat,
    replies: Seq<AnswerView>,
    pos: nat,
) -> (outcomes: Seq<Result<Converted, ErrorView>>)
    requires
        zip_entries(limit, bytes, n, depth, replies, pos).0 is Finished,
        zip_entries(limit, bytes, n, depth, replies, pos).0->Finished_0 is Ok,
    ensures
        entry_outcomes(limit, bytes, n, depth, replies, outcomes),
        forall|i: nat| i < n ==> #[trigger] spec_zip_entry_at(bytes, i) is Ok,
        zip_entries(limit, bytes, n, depth, replies, pos).0 == StepView::<Converted>::Finished(
            Ok(untitled(entries_text(bytes, n, outcomes))),
        ),
    decreases n,
{
    if n == 0 {
        Seq::empty()
    } else {
        let (prev, p) = zip_entries(limit, bytes, (n - 1) as nat, depth, replies, pos);
        if !(prev matches StepView::Finished(Ok(_))) {
            lemma_entries_halt_sticks(limit, bytes, (n - 1) as nat, n, depth, replies, pos);
            assert(false);
        }
        let before = lemma_entries_outcomes(limit, bytes, (n - 1) as nat, depth, replies, pos);
        let entry = spec_zip_entry_at(bytes, (n - 1) as nat);
        let outcome: Result<Converted, ErrorView> = match entry {
            Ok((name, is_dir, Some(c))) => if is_dir {
                Ok(untitled(Seq::empty()))
            } else {
                match spec_convert_at(limit, entry_source(name, c), depth, replies, p).0 {
                    StepView::Finished(res) => res,
                    _ => Ok(untitled(Seq::empty())),
                }
            },
            _ => Ok(untitled(Seq::empty())),
        };
        let outcomes = before.push(outcome);
        lemma_entries_text_prefix(bytes, (n - 1) as nat, before, seq![outcome]);
        assert(before + seq![outcome] =~= outcomes);
        let acc = entries_text(bytes, (n - 1) as nat, before);
        assert(entries_text(bytes, (n - 1) as nat, outcomes) == acc);
        assert(outcomes[n - 1] == outcome);
        match entry {
            Ok((name, is_dir, content)) => {
                if is_dir {
                    assert(entries_text(bytes, n, outcomes) =~= acc);
                } else {
                    match content {
                        None => {
                            assert(entries_text(bytes, n, outcomes) =~= acc + "### "@ + name
                                + "\n\n_(skipped: read error)_\n\n"@);
                        },
                        Some(c) => {
                            let (r, p2) = spec_convert_at(limit, entry_source(name, c), depth, replies, p);
                            if !(r is Finished) {
                                assert(false);
                            }
                            assert(entries_text(bytes, n, outcomes) =~= acc + "### "@ + name
                                + seq!['\n', '\n'] + entry_body(outcome));
                        },
                    }
                }
            },
            Err(_) => {
                assert(false);
            },
        }
        assert forall|i: nat| i < n implies #[trigger] spec_zip_entry_at(bytes, i) is Ok by {
            if i < n - 1 {
                assert(spec_zip_entry_at(bytes, i) is Ok);
            }
        }
        assert forall|i: nat|
            i < n implies (#[trigger] spec_zip_entry_at(bytes, i) matches Ok((name, is_dir, Some(c)))
                ==> is_dir || exists|q: nat|
                spec_convert_at(limit, entry_source(name, c), depth, replies, q).0
                    == StepView::<Converted>::Finished(outcomes[i as int])) by {
            if i < n - 1 {
                assert(outcomes[i as int] == before[i as int]);
            } else {
                if let Ok((name, is_dir, Some(c))) = spec_zip_entry_at(bytes, i) {
                    if !is_dir {
                        assert(spec_convert_at(limit, entry_source(name, c), depth, replies, p).0
                            == StepView::<Converted>::Finished(outcomes[i as int]));
                    }
                }
            }
        }
        outcomes
    }
}

/// An archive converts as a whole: when it converts, every entry opened,
/// the file entries were converted in archive order, and its Markdown is
/// each file's `### name` heading followed by its converted Markdown (or
/// why it was skipped), with trailing whitespace removed and no title.
pub proof fn lemma_archive_markdown(
    limit: Option<nat>,
    bytes: Seq<u8>,
    depth: nat,
    replies: Seq<AnswerView>,
    pos: nat,
)
    ensures
        spec_zip(limit, bytes, depth, replies, pos).0 matches StepView::Finished(Ok(c)) ==> exists|
            outcomes: Seq<Result<Converted, ErrorView>>,
        |
            entry_outcomes(limit, bytes, spec_zip_len(bytes), depth, replies, outcomes)
                && (forall|i: nat| i < spec_zip_len(bytes) ==> #[trigger] spec_zip_entry_at(bytes, i) is Ok)
                && c == untitled(trim_end(entries_text(bytes, spec_zip_len(bytes), outcomes))),
{
    if let StepView::Finished(Ok(c)) = spec_zip(limit, bytes, depth, replies, pos).0 {
        let n = spec_zip_len(bytes);
        let (st, p) = zip_entries(limit, bytes, n, depth, replies, pos);
        let outcomes = lemma_entries_outcomes(limit, bytes, n, depth, replies, pos);
        assert(c == untitled(trim_end(entries_text(bytes, n, outcomes))));
    }
}

/// Each entry of an archive, in archive order, adds exactly its part to the
/// Markdown of the entries before it: a directory adds nothing; a file adds
/// `### name`, a blank line, and then its converted Markdown without
/// trailing whitespace, or `_(skipped: …)_` with why its conversion failed
/// or why it could not be read; the archive's Markdown is the whole with
/// trailing whitespace removed.
pub proof fn lemma_archive_adds_each_entry(
    limit: Option<nat>,
    bytes: Seq<u8>,
    k: nat,
    depth: nat,
    replies: Seq<AnswerView>,
    pos: nat,
    acc: Seq<char>,
    p: nat,
)
    requires
        zip_entries(limit, bytes, k, depth, replies, pos) == (
            StepView::Finished(Ok::<Converted, ErrorView>(untitled(acc))),
            p,
        ),
        spec_zip_entry_at(bytes, k) is Ok,
    ensures
        ({
            let (name, is_dir, content) = spec_zip_entry_at(bytes, k)->Ok_0;
            let next = zip_entries(limit, bytes, k + 1, depth, replies, pos);
            if is_dir {
                next == (StepView::Finished(Ok::<Converted, ErrorView>(untitled(acc))), p)
            } else {
                match content {
                    None => next == (
                        StepView::Finished(
                            Ok::<Converted, ErrorView>(
                                untitled(acc + "### "@ + name + "\n\n_(skipped: read error)_\n\n"@),
                            ),
                        ),
                        p,
                    ),
                    Some(c) => match spec_convert_at(limit, entry_source(name, c), depth, replies, p) {
                        (StepView::Finished(res), p2) => next == (
                            StepView::Finished(
                                Ok::<Converted, ErrorView>(
                                    untitled(acc + "### "@ + name + seq!['\n', '\n'] + entry_body(res)),
                                ),
                            ),
                            p2,
                        ),
                        other => next == other,
                    },
                }
            }
        }),
        spec_zip_open(bytes) is Ok && zip_entries(limit, bytes, spec_zip_len(bytes), depth, replies, pos)
            == (StepView::Finished(Ok::<Converted, ErrorView>(untitled(acc))), p) ==> spec_zip(
            limit,
            bytes,
            depth,
            replies,
            pos,
        ) == (StepView::Finished(Ok::<Converted, ErrorView>(untitled(trim_end(acc)))), p),
{
    assert((k + 1 - 1) as nat == k);
}

/// An archive fails only as a whole, when it does not open or one of its
/// entries cannot be opened: an entry whose conversion fails is reported
/// in the Markdown and the archive still converts, without a title.
pub proof fn lemma_archive_fails_only_as_a_whole(
    limit: Option<nat>,
    bytes: Seq<u8>,
    depth: nat,
    replies: Seq<AnswerView>,
    pos: nat,
)
    ensures
        spec_zip(limit, bytes, depth, replies, pos).0 matches StepView::Finished(Err(e)) ==> e
            is Decode && e->Decode_0 == "zip"@,
        spec_zip(limit, bytes, depth, replies, pos).0 matches StepView::Finished(Ok(c)) ==> c.title
            is None,
{
    if spec_zip_open(bytes) is Ok {
        lemma_entries_fail_only_on_open(limit, bytes, spec_zip_len(bytes), depth, replies, pos);
    }
}

proof fn lemma_entries_fail_only_on_open(
    limit: Option<nat>,
    bytes: Seq<u8>,
    n: nat,
    depth: nat,
    replies: Seq<AnswerView>,
    pos: nat,
)
    ensures
        zip_entries(limit, bytes, n, depth, replies, pos).0 matches StepView::Finished(Err(e)) ==> e
            is Decode && e->Decode_0 == "zip"@,
        zip_entries(limit, bytes, n, depth, replies, pos).0 matches StepView::Finished(Ok(c))
            ==> c.title is None,
    decreases n,
{
    if n > 0 {
        lemma_entries_fail_only_on_open(limit, bytes, (n - 1) as nat, depth, replies, pos);
    }
}

/// Whether a source holds no PDF: it is not one, and, when it is an archive
/// within the nesting allowed, none of its entries holds one.
pub open spec fn holds_no_pdf(s: SourceView, depth: nat) -> bool
    decreases depth, 0nat, 0nat,
{
    let fmt = spec_detect(s.bytes, s.filename, s.mime);
    &&& fmt != DetectedFormat::Pdf
    &&& (fmt == DetectedFormat::Zip && depth > 0 && spec_zip_open(s.bytes) is Ok) ==> entries_hold_no_pdf(
        s.bytes,
        spec_zip_len(s.bytes),
        (depth - 1) as nat,
    )
}

/// Whether none of the first `n` entries of an archive holds a PDF.
pub open spec fn entries_hold_no_pdf(bytes: Seq<u8>, n: nat, depth: nat) -> bool
    decreases depth, 1nat, n,
{
    if n == 0 {
        true
    } else {
        &&& entries_hold_no_pdf(bytes, (n - 1) as nat, depth)
        &&& match spec_zip_entry_at(bytes, (n - 1) as nat) {
            Ok((name, is_dir, Some(c))) => is_dir || holds_no_pdf(entry_source(name, c), depth),
            _ => true,
        }
    }
}

/// The Gemini configuration affects PDFs only: a source that holds no PDF
/// (archives included, as long as no entry at any depth is a PDF) converts
/// to the same step with or without it, using the same answers.
pub proof fn lemma_gemini_affects_only_pdf(
    limit: nat,
    s: SourceView,
    depth: nat,
    replies: Seq<AnswerView>,
    pos: nat,
)
    requires
        holds_no_pdf(s, depth),
    ensures
        spec_convert_at(Some(limit), s, depth, replies, pos) == spec_convert_at(
            None,
            s,
            depth,
            replies,
            pos,
        ),
    decreases depth, 0nat, 0nat,
{
    let fmt = spec_detect(s.bytes, s.filename, s.mime);
    if fmt == DetectedFormat::Zip && depth > 0 {
        if spec_zip_open(s.bytes) is Ok {
            lemma_entries_ignore_gemini(limit, s.bytes, spec_zip_len(s.bytes), (depth - 1) as nat, replies, pos);
        }
    }
}

proof fn lemma_entries_ignore_gemini(
    limit: nat,
    bytes: Seq<u8>,
    n: nat,
    depth: nat,
    replies: Seq<AnswerView>,
    pos: nat,
)
    requires
        entries_hold_no_pdf(bytes, n, depth),
    ensures
        zip_entries(Some(limit), bytes, n, depth, replies, pos) == zip_entries(
            None,
            bytes,
            n,
            depth,
            replies,
            pos,
        ),
    decreases depth, 1nat, n,
{
    if n > 0 {
        lemma_entries_ignore_gemini(limit, bytes, (n - 1) as nat, depth, replies, pos);
        let (prev, p) = zip_entries(None, bytes, (n - 1) as nat, depth, replies, pos);
        if let StepView::Finished(Ok(_)) = prev {
            if let Ok((name, is_dir, content)) = spec_zip_entry_at(bytes, (n - 1) as nat) {
                if !is_dir {
                    if let Some(c) = content {
                        lemma_gemini_affects_only_pdf(limit, entry_source(name, c), depth, replies, p);
                    }
                }
            }
        }
    }
}

} // verus!
