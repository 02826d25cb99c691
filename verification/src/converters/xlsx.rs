//! Spreadsheet conversion (XLSX, XLSM, XLSB, XLS, ODS): each sheet becomes a
//! `## name` heading followed by a Markdown table. The workbook is opened and
//! its sheets read by the caller (see [`crate::step::Extraction::Workbook`]).
use vstd::prelude::*;

use crate::error::{ErrorView, MarkItDownError};
use crate::registry::{untitled, ConversionResult, Converted};
use crate::step::{cells_view, workbook_view, SheetData, SheetView};
use crate::text::{chars_of, push_all, push_str, string_of, trim_end, trim_end_chars};
use crate::util::{markdown_table, spec_markdown_table};

verus! {

/// Converts each sheet to a heading and a Markdown table.
pub struct XlsxConverter;

/// A cell's text: empty for an empty cell.
pub open spec fn cell_text(c: Option<Seq<char>>) -> Seq<char> {
    match c {
        Some(t) => t,
        None => Seq::empty(),
    }
}

/// A sheet's rows with every cell as its text.
pub open spec fn formatted_rows(cells: Seq<Seq<Option<Seq<char>>>>) -> Seq<Seq<Seq<char>>> {
    cells.map_values(|row: Seq<Option<Seq<char>>>| row.map_values(|c: Option<Seq<char>>| cell_text(c)))
}

/// The text of a cell: empty for an empty cell, its shown value otherwise.
pub fn format_cell(cell: &Option<String>) -> (r: String)
    ensures
        r@ == cell_text(match cell {
            Some(s) => Some(s@),
            None => None,
        }),
{
    match cell {
        Some(s) => s.clone(),
        None => String::new(),
    }
}

/// A sheet's rows with every cell as its text.
fn format_rows(cells: &Vec<Vec<Option<String>>>) -> (r: Vec<Vec<String>>)
    ensures
        r.deep_view() == formatted_rows(cells_view(cells@)),
{
    let ghost cv = cells_view(cells@);
    let mut rows: Vec<Vec<String>> = Vec::new();
    let mut i: usize = 0;
    while i < cells.len()
        invariant
            i <= cells@.len(),
            cv == cells_view(cells@),
            rows.deep_view() == formatted_rows(cv).subrange(0, i as int),
        decreases cells@.len() - i,
    {
        let row = &cells[i];
        let mut out: Vec<String> = Vec::new();
        let mut j: usize = 0;
        while j < row.len()
            invariant
                j <= row@.len(),
                row == cells@[i as int],
                i < cells@.len(),
                cv == cells_view(cells@),
                out.deep_view() == formatted_rows(cv)[i as int].subrange(0, j as int),
            decreases row@.len() - j,
        {
            let t = format_cell(&row[j]);
            let ghost before = out.deep_view();
            proof {
                assert(cv[i as int][j as int] == match row@[j as int] {
                    Some(s) => Some(s@),
                    None => None::<Seq<char>>,
                });
                assert(formatted_rows(cv)[i as int][j as int] == t@);
            }
            out.push(t);
            assert(out.deep_view() =~= before.push(t@));
            assert(out.deep_view() =~= formatted_rows(cv)[i as int].subrange(0, j + 1));
            j += 1;
        }
        let ghost before = rows.deep_view();
        assert(out.deep_view() =~= formatted_rows(cv)[i as int]);
        let ghost od = out.deep_view();
        rows.push(out);
        assert(rows.deep_view() =~= before.push(od));
        assert(rows.deep_view() =~= formatted_rows(cv).subrange(0, i + 1));
        i += 1;
    }
    assert(rows.deep_view() =~= formatted_rows(cv));
    rows
}

/// The Markdown of the sheets, or the first sheet error.
pub open spec fn sheets_markdown(sheets: Seq<SheetView>) -> Result<Seq<char>, ErrorView>
    decreases sheets.len(),
{
    if sheets.len() == 0 {
        Ok(Seq::empty())
    } else {
        match sheets_markdown(sheets.drop_last()) {
            Err(e) => Err(e),
            Ok(md) => match sheets.last().cells {
                Err(e) => Err(ErrorView::Decode("xlsx"@, e)),
                Ok(cells) => {
                    let rows = formatted_rows(cells);
                    let head = md + "## "@ + sheets.last().name + seq!['\n', '\n'];
                    if rows.len() == 0 {
                        Ok(head + "_(empty sheet)_\n\n"@)
                    } else {
                        Ok(head + spec_markdown_table(rows) + seq!['\n'])
                    }
                },
            },
        }
    }
}

/// What converting a workbook yields from what opening it gave: every
/// sheet's heading and table with trailing whitespace removed, or an `xlsx`
/// decode error when the workbook did not open or a sheet could not be
/// read.
pub open spec fn spec_xlsx(workbook: Result<Seq<SheetView>, Seq<char>>) -> Result<Converted, ErrorView> {
    match workbook {
        Err(e) => Err(ErrorView::Decode("xlsx"@, e)),
        Ok(sheets) => match sheets_markdown(sheets) {
            Err(e) => Err(e),
            Ok(md) => Ok(untitled(trim_end(md))),
        },
    }
}

/// A sheet error is always an `xlsx` decode error.
pub proof fn lemma_sheets_errors_are_decode(sheets: Seq<SheetView>)
    ensures
        sheets_markdown(sheets) matches Err(e) ==> e is Decode,
    decreases sheets.len(),
{
    if sheets.len() > 0 {
        lemma_sheets_errors_are_decode(sheets.drop_last());
    }
}

proof fn lemma_sheets_error_sticks(sheets: Seq<SheetView>, k: int)
    requires
        0 <= k <= sheets.len(),
        sheets_markdown(sheets.subrange(0, k)) is Err,
    ensures
        sheets_markdown(sheets) == sheets_markdown(sheets.subrange(0, k)),
    decreases sheets.len() - k,
{
    if k < sheets.len() {
        assert(sheets.subrange(0, k + 1).drop_last() =~= sheets.subrange(0, k));
        lemma_sheets_error_sticks(sheets, k + 1);
    } else {
        assert(sheets.subrange(0, k) =~= sheets);
    }
}

impl XlsxConverter {
    /// Converts a workbook, given what opening it gave, to Markdown.
    pub fn convert(&self, workbook: &Result<Vec<SheetData>, String>) -> (r: Result<
        ConversionResult,
        MarkItDownError,
    >)
        ensures
            crate::bindings::view_result(r) == spec_xlsx(workbook_view(*workbook)),
    {
        let sheets = match workbook {
            Ok(s) => s,
            Err(e) => return Err(MarkItDownError::decode(String::from_str("xlsx"), e.clone())),
        };
        let ghost sv = workbook_view(*workbook)->Ok_0;
        let mut markdown: Vec<char> = Vec::new();
        let mut i: usize = 0;
        while i < sheets.len()
            invariant
                i <= sheets@.len(),
                workbook_view(*workbook) == Ok::<Seq<SheetView>, Seq<char>>(sv),
                sv.len() == sheets@.len(),
                forall|k: int| 0 <= k < sv.len() ==> #[trigger] sv[k] == sheets@[k]@,
                sheets_markdown(sv.subrange(0, i as int)) == Ok::<Seq<char>, ErrorView>(
                    markdown@,
                ),
            decreases sheets@.len() - i,
        {
            let ghost prefix = sv.subrange(0, i + 1);
            proof {
                assert(prefix.drop_last() =~= sv.subrange(0, i as int));
                assert(prefix.last() == sheets@[i as int]@);
            }
            let ghost md0 = markdown@;
            let sheet = &sheets[i];
            let cells = match &sheet.cells {
                Ok(c) => c,
                Err(e) => {
                    let err = MarkItDownError::decode(String::from_str("xlsx"), e.clone());
                    proof {
                        assert(sheets_markdown(prefix) == Err::<Seq<char>, ErrorView>(err@));
                        lemma_sheets_error_sticks(sv, i + 1);
                        assert(sheets_markdown(sv) == Err::<Seq<char>, ErrorView>(err@));
                        assert(spec_xlsx(Ok(sv)) == Err::<Converted, ErrorView>(err@));
                    }
                    return Err(err);
                },
            };
            let rows = format_rows(cells);
            push_str(&mut markdown, "## ");
            push_str(&mut markdown, sheet.name.as_str());
            markdown.push('\n');
            markdown.push('\n');
            let ghost head = markdown@;
            assert(head =~= md0 + "## "@ + prefix.last().name + seq!['\n', '\n']);
            if rows.len() == 0 {
                push_str(&mut markdown, "_(empty sheet)_\n\n");
            } else {
                let table = markdown_table(rows.as_slice());
                push_str(&mut markdown, table.as_str());
                markdown.push('\n');
                assert(markdown@ =~= head + table@ + seq!['\n']);
            }
            i += 1;
        }
        assert(sv.subrange(0, sv.len() as int) =~= sv);
        let md = trim_end_chars(markdown.as_slice());
        Ok(ConversionResult::text(string_of(md.as_slice())))
    }
}

} // verus!
