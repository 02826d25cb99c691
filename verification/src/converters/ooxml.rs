//! Table reading shared by the Office Open XML converters (DOCX, PPTX):
//! `tbl` / `tr` / `tc` elements collected into rows of cell texts.
use vstd::prelude::*;

use crate::text::{push_all, string_of, trim, trim_chars};
use crate::util::{markdown_table, spec_markdown_table};

verus! {

/// The table being read.
pub struct TableAcc {
    /// Inside a `tbl` element.
    pub in_table: bool,
    /// The finished rows of the current table.
    pub rows: Vec<Vec<String>>,
    /// The cells of the current row.
    pub cur_row: Vec<String>,
    /// The text of the current cell.
    pub cell: Vec<char>,
}

/// The plain value of a [`TableAcc`].
pub struct TableState {
    pub in_table: bool,
    pub rows: Seq<Seq<Seq<char>>>,
    pub cur_row: Seq<Seq<char>>,
    pub cell: Seq<char>,
}

impl View for TableAcc {
    type V = TableState;

    open spec fn view(&self) -> TableState {
        TableState {
            in_table: self.in_table,
            rows: self.rows.deep_view(),
            cur_row: self.cur_row.deep_view(),
            cell: self.cell@,
        }
    }
}

/// No table read yet.
pub open spec fn table_init() -> TableState {
    TableState { in_table: false, rows: Seq::empty(), cur_row: Seq::empty(), cell: Seq::empty() }
}

/// `<tbl>`: a new table begins.
pub open spec fn table_start(t: TableState) -> TableState {
    TableState { in_table: true, rows: Seq::empty(), ..t }
}

/// `<tr>`: a new row begins.
pub open spec fn row_start(t: TableState) -> TableState {
    TableState { cur_row: Seq::empty(), ..t }
}

/// `<tc>`: a new cell begins.
pub open spec fn cell_start(t: TableState) -> TableState {
    TableState { cell: Seq::empty(), ..t }
}

/// `</tc>`: the cell's trimmed text joins the row.
pub open spec fn cell_end(t: TableState) -> TableState {
    TableState { cur_row: t.cur_row.push(trim(t.cell)), ..t }
}

/// `</tr>`: the row joins the table.
pub open spec fn row_end(t: TableState) -> TableState {
    TableState { rows: t.rows.push(t.cur_row), cur_row: Seq::empty(), ..t }
}

/// `</tbl>`: the table ends.
pub open spec fn table_end(t: TableState) -> TableState {
    TableState { in_table: false, ..t }
}

/// Starting a table leaves no rows of an earlier table: right after `<tbl>`
/// the table has no rows and is open, and a row ended then is its only
/// row; the cells being read are left as they were.
pub proof fn lemma_table_start_forgets_earlier_rows(t: TableState)
    ensures
        table_start(t).rows.len() == 0,
        table_start(t).in_table,
        table_start(t).cur_row == t.cur_row && table_start(t).cell == t.cell,
        row_end(table_start(t)).rows == seq![t.cur_row],
{
    assert(row_end(table_start(t)).rows =~= seq![t.cur_row]);
}

impl TableAcc {
    pub fn new() -> (r: Self)
        ensures
            r@ == table_init(),
    {
        let r = TableAcc {
            in_table: false,
            rows: Vec::new(),
            cur_row: Vec::new(),
            cell: Vec::new(),
        };
        assert(r@.rows =~= Seq::<Seq<Seq<char>>>::empty());
        assert(r@.cur_row =~= Seq::<Seq<char>>::empty());
        r
    }

    pub fn start_table(&mut self)
        ensures
            final(self)@ == table_start(old(self)@),
    {
        self.in_table = true;
        self.rows = Vec::new();
        assert(self@.rows =~= Seq::<Seq<Seq<char>>>::empty());
    }

    pub fn start_row(&mut self)
        ensures
            final(self)@ == row_start(old(self)@),
    {
        self.cur_row = Vec::new();
        assert(self@.cur_row =~= Seq::<Seq<char>>::empty());
    }

    pub fn start_cell(&mut self)
        ensures
            final(self)@ == cell_start(old(self)@),
    {
        self.cell = Vec::new();
    }

    pub fn end_cell(&mut self)
        ensures
            final(self)@ == cell_end(old(self)@),
    {
        let t = trim_chars(self.cell.as_slice());
        let s = string_of(t.as_slice());
        let ghost before = self.cur_row.deep_view();
        self.cur_row.push(s);
        assert(self@.cur_row =~= before.push(trim(old(self)@.cell)));
    }

    pub fn end_row(&mut self)
        ensures
            final(self)@ == row_end(old(self)@),
    {
        let mut row: Vec<String> = Vec::new();
        std::mem::swap(&mut row, &mut self.cur_row);
        let ghost before = self.rows.deep_view();
        self.rows.push(row);
        assert(self@.rows =~= before.push(old(self)@.cur_row));
        assert(self@.cur_row =~= Seq::<Seq<char>>::empty());
    }

    /// Ends the table and writes it, followed by a line break, to `out`.
    pub fn end_table(&mut self, out: &mut Vec<char>)
        ensures
            final(self)@ == table_end(old(self)@),
            final(out)@ == old(out)@ + spec_markdown_table(old(self)@.rows) + seq!['\n'],
    {
        self.in_table = false;
        let table = markdown_table(self.rows.as_slice());
        let t = crate::text::chars_of(table.as_str());
        push_all(out, t.as_slice());
        out.push('\n');
    }

    /// Adds text to the current cell.
    pub fn add_cell_text(&mut self, text: &str)
        ensures
            final(self)@ == (TableState { cell: old(self)@.cell + text@, ..old(self)@ }),
    {
        crate::text::push_str(&mut self.cell, text);
    }
}

} // verus!
