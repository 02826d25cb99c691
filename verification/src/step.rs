//! The steps of a conversion. Reading a file, fetching a URL, calling
//! Gemini and running the PDF, EPub, spreadsheet and HTML extractors are done by
//! the caller: a conversion either finishes or names the one piece of
//! outside work it needs next, and is run again with the answers gathered
//! so far. The extractors (pdf-extract, epub, calamine, htmd) can panic on
//! malformed input, so they run where such a panic ends the caller's task,
//! not inside a verified function.
use vstd::prelude::*;

use crate::bindings::uri::WebUrl;
use crate::bindings::view_option;
use crate::error::{ErrorView, MarkItDownError};
use crate::gemini::config::ModelTier;
use crate::gemini::route::{Attempt, AttemptView, Tier};

verus! {

/// A Gemini call the caller must make: send `pdf` inline to `model`.
#[derive(Debug, Clone)]
pub struct GeminiCall {
    /// Which tier of the route the call is for.
    pub tier: Tier,
    /// The model and thinking level of that tier.
    pub model: ModelTier,
    /// The PDF to convert.
    pub pdf: Vec<u8>,
}

/// The plain value of a [`GeminiCall`] (its model follows from the tier and
/// the configuration).
pub struct CallView {
    pub tier: Tier,
    pub pdf: Seq<u8>,
}

impl View for GeminiCall {
    type V = CallView;

    open spec fn view(&self) -> CallView {
        CallView { tier: self.tier, pdf: self.pdf@ }
    }
}

/// Where a conversion stands.
#[derive(Debug)]
pub enum Step<T> {
    /// The conversion is over.
    Finished(Result<T, MarkItDownError>),
    /// The caller must read this local file and answer with its bytes.
    ReadFile(std::path::PathBuf),
    /// The caller must fetch this URL and answer with the response.
    Fetch(WebUrl),
    /// The caller must make this Gemini call and answer with its outcome.
    CallGemini(GeminiCall),
    /// The caller must run this extraction on these bytes and answer with
    /// what it gives.
    Extract(Extraction, Vec<u8>),
}

/// The plain value of a [`Step`] (the path of a file to read is not looked
/// into).
pub enum StepView<V> {
    Finished(Result<V, ErrorView>),
    ReadFile,
    Fetch(Seq<char>),
    CallGemini(CallView),
    Extract(Extraction, Seq<u8>),
}

impl<T: View> View for Step<T> {
    type V = StepView<T::V>;

    open spec fn view(&self) -> StepView<T::V> {
        match self {
            Step::Finished(r) => StepView::Finished(crate::bindings::view_result(*r)),
            Step::ReadFile(_) => StepView::ReadFile,
            Step::Fetch(u) => StepView::Fetch(u@),
            Step::CallGemini(c) => StepView::CallGemini(c@),
            Step::Extract(k, b) => StepView::Extract(*k, b@),
        }
    }
}

/// An extraction made by an outside crate that the caller runs.
#[derive(Debug, Clone, Copy, PartialEq, Eq, Structural)]
pub enum Extraction {
    /// `pdf_extract::extract_text_from_mem`: the text of a PDF.
    PdfText,
    /// `epub::doc::EpubDoc`: the title and the chapters of an EPub.
    EpubBook,
    /// `calamine::open_workbook_auto_from_rs`: the sheets of a workbook.
    Workbook,
    /// `htmd::convert`: the Markdown of an HTML text (the bytes of the step
    /// are the text's UTF-8 encoding).
    HtmlMarkdown,
}

/// The content of an EPub: its `title` metadata, and for each chapter in
/// spine order what `htmd::convert` made of its content (`None` when the
/// chapter's resource cannot be read as text).
#[derive(Debug)]
pub struct EpubBook {
    pub title: Option<String>,
    pub chapters: Vec<Option<Result<String, String>>>,
}

/// The plain value of an [`EpubBook`].
pub struct BookView {
    pub title: Option<Seq<char>>,
    pub chapters: Seq<Option<Result<Seq<char>, Seq<char>>>>,
}

/// A chapter by its view.
pub open spec fn chapter_view(c: Option<Result<String, String>>) -> Option<Result<Seq<char>, Seq<char>>> {
    match c {
        Some(r) => Some(crate::bindings::view_result(r)),
        None => None,
    }
}

impl View for EpubBook {
    type V = BookView;

    open spec fn view(&self) -> BookView {
        BookView {
            title: view_option(self.title),
            chapters: self.chapters@.map_values(|c: Option<Result<String, String>>| chapter_view(c)),
        }
    }
}

/// The view of a sheet's cells (`None` for an empty cell).
pub open spec fn cells_view(rows: Seq<Vec<Option<String>>>) -> Seq<Seq<Option<Seq<char>>>> {
    rows.map_values(|row: Vec<Option<String>>| row@.map_values(|c: Option<String>| view_option(c)))
}

/// One sheet of a workbook, in the workbook's order: its name, and its
/// rows of cells (`None` for an empty cell, the cell's displayed value
/// otherwise) or the text of the error reading it.
#[derive(Debug)]
pub struct SheetData {
    pub name: String,
    pub cells: Result<Vec<Vec<Option<String>>>, String>,
}

/// The plain value of a [`SheetData`].
pub struct SheetView {
    pub name: Seq<char>,
    pub cells: Result<Seq<Seq<Option<Seq<char>>>>, Seq<char>>,
}

impl View for SheetData {
    type V = SheetView;

    open spec fn view(&self) -> SheetView {
        SheetView {
            name: self.name@,
            cells: match self.cells {
                Ok(rows) => Ok(cells_view(rows@)),
                Err(e) => Err(e@),
            },
        }
    }
}

/// What opening a workbook gave, by the views of its sheets.
pub open spec fn workbook_view(r: Result<Vec<SheetData>, String>) -> Result<Seq<SheetView>, Seq<char>> {
    match r {
        Ok(sheets) => Ok(sheets@.map_values(|s: SheetData| s@)),
        Err(e) => Err(e@),
    }
}

/// The caller's answer to a [`Step::CallGemini`] or [`Step::Extract`]
/// step; each answer holds the outcome, or the text of the error it ended
/// with.
#[derive(Debug)]
pub enum Answer {
    /// The assessed answer of a Gemini call.
    Gemini(Result<Attempt, String>),
    /// The text extracted from a PDF.
    PdfText(Result<String, String>),
    /// The content of an EPub.
    EpubBook(Result<EpubBook, String>),
    /// The sheets of a workbook.
    Workbook(Result<Vec<SheetData>, String>),
    /// The Markdown of an HTML text.
    HtmlMarkdown(Result<String, String>),
}

/// The plain value of an [`Answer`].
pub enum AnswerView {
    Gemini(Result<AttemptView, Seq<char>>),
    PdfText(Result<Seq<char>, Seq<char>>),
    EpubBook(Result<BookView, Seq<char>>),
    Workbook(Result<Seq<SheetView>, Seq<char>>),
    HtmlMarkdown(Result<Seq<char>, Seq<char>>),
}

impl View for Answer {
    type V = AnswerView;

    open spec fn view(&self) -> AnswerView {
        match self {
            Answer::Gemini(r) => AnswerView::Gemini(crate::bindings::view_result(*r)),
            Answer::PdfText(r) => AnswerView::PdfText(crate::bindings::view_result(*r)),
            Answer::EpubBook(r) => AnswerView::EpubBook(crate::bindings::view_result(*r)),
            Answer::Workbook(r) => AnswerView::Workbook(workbook_view(*r)),
            Answer::HtmlMarkdown(r) => AnswerView::HtmlMarkdown(crate::bindings::view_result(*r)),
        }
    }
}

/// The answers by their views.
pub open spec fn answers_view(answers: Seq<Answer>) -> Seq<AnswerView> {
    answers.map_values(|a: Answer| a@)
}

/// The message of the error that an answer of the wrong kind ends a
/// conversion with.
pub const UNEXPECTED_ANSWER: &'static str = "the answer does not match the step asked for";

} // verus!
