//! EPub conversion: chapters in spine order, each converted with `htmd`,
//! joined with blank lines. The book is opened, and its chapters read and
//! converted, by the caller (see [`crate::step::Extraction::EpubBook`]).
use vstd::prelude::*;

use crate::bindings::view_option;
use crate::error::{ErrorView, MarkItDownError};
use crate::registry::{ConversionResult, Converted};
use crate::step::{chapter_view, BookView, EpubBook};
use crate::text::{chars_of, push_all, string_of, trim, trim_chars, trim_end, trim_end_chars};

verus! {

/// Converts the chapters of an EPub to Markdown and joins them.
pub struct EpubConverter;

/// The joined Markdown of the first `n` chapters: each chapter whose
/// resource read and converted to non-blank Markdown contributes its
/// trimmed Markdown and a blank line.
pub open spec fn chapters_markdown(chapters: Seq<Option<Result<Seq<char>, Seq<char>>>>, n: nat) -> Seq<char>
    decreases n,
{
    if n == 0 {
        Seq::empty()
    } else {
        let md = chapters_markdown(chapters, (n - 1) as nat);
        match chapters[n - 1] {
            Some(Ok(part)) => if trim(part).len() > 0 {
                md + trim(part) + seq!['\n', '\n']
            } else {
                md
            },
            _ => md,
        }
    }
}

/// What converting an EPub yields: its chapters' Markdown (trailing
/// whitespace removed) and its title, or an `epub` decode error when the
/// book did not open.
pub open spec fn spec_epub(book: Result<BookView, Seq<char>>) -> Result<Converted, ErrorView> {
    match book {
        Err(e) => Err(ErrorView::Decode("epub"@, e)),
        Ok(b) => Ok(
            Converted {
                markdown: trim_end(chapters_markdown(b.chapters, b.chapters.len())),
                title: b.title,
            },
        ),
    }
}

impl EpubConverter {
    /// Converts an EPub, given what opening it gave, to Markdown.
    pub fn convert(&self, book: &Result<EpubBook, String>) -> (r: Result<ConversionResult, MarkItDownError>)
        ensures
            crate::bindings::view_result(r) == spec_epub(crate::bindings::view_result(*book)),
    {
        let b = match book {
            Ok(b) => b,
            Err(e) => return Err(MarkItDownError::decode(String::from_str("epub"), e.clone())),
        };
        let ghost chapters = b@.chapters;
        let n = b.chapters.len();
        let mut markdown: Vec<char> = Vec::new();
        let mut k: usize = 0;
        while k < n
            invariant
                k <= n,
                n == b.chapters@.len(),
                chapters == b@.chapters,
                markdown@ == chapters_markdown(chapters, k as nat),
            decreases n - k,
        {
            assert(chapters[k as int] == chapter_view(b.chapters@[k as int]));
            match &b.chapters[k] {
                Some(Ok(part)) => {
                    let p = chars_of(part.as_str());
                    let t = trim_chars(p.as_slice());
                    if t.len() > 0 {
                        push_all(&mut markdown, t.as_slice());
                        markdown.push('\n');
                        markdown.push('\n');
                    }
                },
                _ => {},
            }
            k += 1;
        }
        let md = trim_end_chars(markdown.as_slice());
        Ok(ConversionResult { markdown: string_of(md.as_slice()), title: b.title.clone() })
    }
}

} // verus!
