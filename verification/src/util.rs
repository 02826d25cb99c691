//! Utilities shared by the converters: Markdown tables, text sniffing,
//! XML name handling, text decoding and ZIP entry access.
use vstd::prelude::*;

use crate::bindings::view_option;

use crate::bindings::encoding::{
    spec_decode, spec_encoding_for_label, spec_guessed_encoding, Detector, TextEncoding,
};
use crate::bindings::std_text::{is_utf8, spec_is_utf8};
use crate::bindings::deep_result;
use crate::bindings::zip::{spec_zip_index_of, spec_zip_names, spec_zip_open, spec_zip_read, ZipReader};
use crate::text::{
    chars_of, chars_starts_with, is_ws, push_all, starts_with, string_of, trim, trim_chars,
    trim_end, trim_start,
};

verus! {

// ---------------------------------------------------------------------------
// Markdown tables
// ---------------------------------------------------------------------------

/// How one character of a table cell is written in Markdown.
pub open spec fn escape_char(c: char) -> Seq<char> {
    if c == '\\' {
        seq!['\\', '\\']
    } else if c == '|' {
        seq!['\\', '|']
    } else if c == '\n' || c == '\r' {
        seq![' ']
    } else {
        seq![c]
    }
}

/// Every character of `s` escaped with [`escape_char`].
pub open spec fn escape_all(s: Seq<char>) -> Seq<char>
    decreases s.len(),
{
    if s.len() == 0 {
        Seq::empty()
    } else {
        escape_all(s.drop_last()) + escape_char(s.last())
    }
}

/// A cell as it appears in a Markdown table: backslashes doubled, pipes
/// escaped, line breaks turned into spaces, then trimmed.
pub open spec fn spec_escape_cell(s: Seq<char>) -> Seq<char> {
    trim(escape_all(s))
}

/// The widest row's length.
pub open spec fn max_cols(rows: Seq<Seq<Seq<char>>>) -> nat
    decreases rows.len(),
{
    if rows.len() == 0 {
        0
    } else {
        let m = max_cols(rows.drop_last());
        if rows.last().len() > m {
            rows.last().len()
        } else {
            m
        }
    }
}

/// The escaped text of cell `c` of `row`, empty when the row is shorter.
pub open spec fn cell_at(row: Seq<Seq<char>>, c: int) -> Seq<char> {
    if 0 <= c < row.len() {
        spec_escape_cell(row[c])
    } else {
        Seq::empty()
    }
}

/// The first `n` cells of `row`, each written as ` cell |`.
pub open spec fn render_cells(row: Seq<Seq<char>>, n: nat) -> Seq<char>
    decreases n,
{
    if n == 0 {
        Seq::empty()
    } else {
        render_cells(row, (n - 1) as nat) + seq![' '] + cell_at(row, n - 1) + seq![' ', '|']
    }
}

/// One table line padded to `cols` cells.
pub open spec fn render_row(row: Seq<Seq<char>>, cols: nat) -> Seq<char> {
    seq!['|'] + render_cells(row, cols) + seq!['\n']
}

/// `n` separator cells ` --- |`.
pub open spec fn separator_cells(n: nat) -> Seq<char>
    decreases n,
{
    if n == 0 {
        Seq::empty()
    } else {
        separator_cells((n - 1) as nat) + seq![' ', '-', '-', '-', ' ', '|']
    }
}

/// The header separator line.
pub open spec fn separator_row(cols: nat) -> Seq<char> {
    seq!['|'] + separator_cells(cols) + seq!['\n']
}

/// All rows rendered one after the other.
pub open spec fn render_rows(rows: Seq<Seq<Seq<char>>>, cols: nat) -> Seq<char>
    decreases rows.len(),
{
    if rows.len() == 0 {
        Seq::empty()
    } else {
        render_rows(rows.drop_last(), cols) + render_row(rows.last(), cols)
    }
}

/// The Markdown table for `rows`: the first row is the header, every row is
/// padded to the widest row, and an empty table (no rows, or only empty
/// rows) is the empty string.
pub open spec fn spec_markdown_table(rows: Seq<Seq<Seq<char>>>) -> Seq<char> {
    let cols = max_cols(rows);
    if rows.len() == 0 || cols == 0 {
        Seq::empty()
    } else {
        render_row(rows[0], cols) + separator_row(cols) + render_rows(rows.drop_first(), cols)
    }
}

proof fn lemma_escape_all_no_break(s: Seq<char>)
    ensures
        forall|i: int|
            0 <= i < escape_all(s).len() ==> escape_all(s)[i] != '\n' && escape_all(s)[i]
                != '\r',
        forall|i: int|
            0 <= i < escape_all(s).len() && #[trigger] escape_all(s)[i] == '|' ==> i > 0 && escape_all(
                s,
            )[i - 1] == '\\',
    decreases s.len(),
{
    if s.len() > 0 {
        lemma_escape_all_no_break(s.drop_last());
        let p = escape_all(s.drop_last());
        let e = escape_char(s.last());
        assert(escape_all(s) == p + e);
        assert forall|i: int| 0 <= i < (p + e).len() && #[trigger] (p + e)[i] == '|' implies i > 0 && (p
            + e)[i - 1] == '\\' by {
            if i >= p.len() {
                assert(e[i - p.len()] == '|');
                assert(i - p.len() == 1);
            }
        }
    }
}

proof fn lemma_trim_start_suffix(s: Seq<char>)
    ensures
        exists|a: int| 0 <= a <= s.len() && trim_start(s) == s.subrange(a, s.len() as int),
    decreases s.len(),
{
    if s.len() > 0 && is_ws(s[0]) {
        lemma_trim_start_suffix(s.drop_first());
        let a = choose|a: int|
            0 <= a <= s.drop_first().len() && trim_start(s.drop_first())
                == s.drop_first().subrange(a, s.drop_first().len() as int);
        assert(s.drop_first().subrange(a, s.drop_first().len() as int) =~= s.subrange(
            a + 1,
            s.len() as int,
        ));
    } else {
        assert(s.subrange(0, s.len() as int) =~= s);
    }
}

proof fn lemma_trim_end_prefix(s: Seq<char>)
    ensures
        exists|b: int| 0 <= b <= s.len() && trim_end(s) == s.subrange(0, b),
    decreases s.len(),
{
    if s.len() > 0 && is_ws(s.last()) {
        lemma_trim_end_prefix(s.drop_last());
        let b = choose|b: int|
            0 <= b <= s.drop_last().len() && trim_end(s.drop_last()) == s.drop_last().subrange(
                0,
                b,
            );
        assert(s.drop_last().subrange(0, b) =~= s.subrange(0, b));
    } else {
        assert(s.subrange(0, s.len() as int) =~= s);
    }
}

proof fn lemma_trim_start_first(s: Seq<char>)
    ensures
        trim_start(s).len() > 0 ==> !is_ws(trim_start(s)[0]),
    decreases s.len(),
{
    if s.len() > 0 && is_ws(s[0]) {
        lemma_trim_start_first(s.drop_first());
    }
}

/// An escaped cell holds no line break, and each of its pipes is escaped by
/// the backslash just before it: a cell cannot break the table's rows or
/// columns.
pub proof fn lemma_escaped_cell_keeps_table_shape(s: Seq<char>)
    ensures
        forall|i: int|
            0 <= i < spec_escape_cell(s).len() ==> spec_escape_cell(s)[i] != '\n'
                && spec_escape_cell(s)[i] != '\r',
        forall|i: int|
            0 <= i < spec_escape_cell(s).len() && #[trigger] spec_escape_cell(s)[i] == '|' ==> i > 0
                && spec_escape_cell(s)[i - 1] == '\\',
{
    let e = escape_all(s);
    lemma_escape_all_no_break(s);
    lemma_trim_start_suffix(e);
    let a = choose|a: int| 0 <= a <= e.len() && trim_start(e) == e.subrange(a, e.len() as int);
    let t = trim_start(e);
    lemma_trim_start_first(e);
    lemma_trim_end_prefix(t);
    let b = choose|b: int| 0 <= b <= t.len() && trim_end(t) == t.subrange(0, b);
    let r = trim_end(t);
    assert(spec_escape_cell(s) == r);
    assert forall|i: int| 0 <= i < r.len() implies #[trigger] r[i] != '\n' && r[i] != '\r' by {
        assert(r[i] == t[i]);
        assert(t[i] == e[a + i]);
    }
    assert forall|i: int| 0 <= i < r.len() && #[trigger] r[i] == '|' implies i > 0 && r[i - 1] == '\\' by {
        assert(r[i] == t[i]);
        assert(t[i] == e[a + i]);
        assert(a + i > 0 && e[a + i - 1] == '\\');
        if i == 0 {
            assert(!is_ws(t[0]));
            assert(t[0] == '|');
            if a > 0 {
                // The character before the first kept one was trimmed as
                // whitespace, yet it is a backslash.
                lemma_trim_start_prefix_ws(e, a);
            }
        } else {
            assert(r[i - 1] == t[i - 1]);
            assert(t[i - 1] == e[a + i - 1]);
        }
    }
}

proof fn lemma_trim_start_prefix_ws(e: Seq<char>, a: int)
    requires
        0 < a <= e.len(),
        trim_start(e) == e.subrange(a, e.len() as int),
        e.len() > a,
    ensures
        is_ws(e[a - 1]),
    decreases e.len(),
{
    if e.len() > 0 && is_ws(e[0]) {
        if a > 1 {
            assert(e.drop_first().subrange(a - 1, e.drop_first().len() as int) =~= e.subrange(
                a,
                e.len() as int,
            ));
            lemma_trim_start_prefix_ws(e.drop_first(), a - 1);
        }
    } else {
        assert(trim_start(e) == e);
        assert(e.subrange(a, e.len() as int).len() < e.len());
    }
}

/// Whether a text holds no line break.
pub open spec fn no_line_break(t: Seq<char>) -> bool {
    forall|i: int| 0 <= i < t.len() ==> #[trigger] t[i] != '\n'
}

/// One line of a table, without its line break: `|` and `cols` cells.
pub open spec fn table_line(row: Seq<Seq<char>>, cols: nat) -> Seq<char> {
    seq!['|'] + render_cells(row, cols)
}

/// The lines of the table for `rows` (at least one row): the header row,
/// the separator, then each other row in order.
pub open spec fn table_lines(rows: Seq<Seq<Seq<char>>>, cols: nat) -> Seq<Seq<char>> {
    seq![table_line(rows[0], cols), seq!['|'] + separator_cells(cols)]
        + rows.drop_first().map_values(|r: Seq<Seq<char>>| table_line(r, cols))
}

/// Lines, each followed by a line break.
pub open spec fn join_lines(lines: Seq<Seq<char>>) -> Seq<char>
    decreases lines.len(),
{
    if lines.len() == 0 {
        Seq::empty()
    } else {
        join_lines(lines.drop_last()) + lines.last() + seq!['\n']
    }
}

proof fn lemma_join_lines_append(a: Seq<Seq<char>>, b: Seq<Seq<char>>)
    ensures
        join_lines(a + b) == join_lines(a) + join_lines(b),
    decreases b.len(),
{
    if b.len() == 0 {
        assert(a + b =~= a);
        assert(join_lines(a) + join_lines(b) =~= join_lines(a));
    } else {
        assert((a + b).drop_last() =~= a + b.drop_last());
        assert((a + b).last() == b.last());
        lemma_join_lines_append(a, b.drop_last());
        assert(join_lines(a) + join_lines(b) =~= join_lines(a) + join_lines(b.drop_last()) + b.last()
            + seq!['\n']);
    }
}

proof fn lemma_render_rows_lines(rows: Seq<Seq<Seq<char>>>, cols: nat)
    ensures
        render_rows(rows, cols) == join_lines(
            rows.map_values(|r: Seq<Seq<char>>| table_line(r, cols)),
        ),
    decreases rows.len(),
{
    let m = rows.map_values(|r: Seq<Seq<char>>| table_line(r, cols));
    if rows.len() > 0 {
        lemma_render_rows_lines(rows.drop_last(), cols);
        assert(m.drop_last() =~= rows.drop_last().map_values(
            |r: Seq<Seq<char>>| table_line(r, cols),
        ));
        assert(render_row(rows.last(), cols) =~= m.last() + seq!['\n']);
        assert(render_rows(rows, cols) =~= join_lines(m.drop_last()) + m.last() + seq!['\n']);
    } else {
        assert(m =~= Seq::<Seq<char>>::empty());
    }
}

proof fn lemma_cells_no_line_break(row: Seq<Seq<char>>, n: nat)
    ensures
        no_line_break(render_cells(row, n)),
    decreases n,
{
    if n > 0 {
        lemma_cells_no_line_break(row, (n - 1) as nat);
        let prev = render_cells(row, (n - 1) as nat);
        let cell = cell_at(row, n - 1);
        if 0 <= n - 1 < row.len() {
            lemma_escaped_cell_keeps_table_shape(row[n - 1]);
        }
        assert(no_line_break(cell));
        let t = prev + seq![' '] + cell + seq![' ', '|'];
        assert forall|i: int| 0 <= i < t.len() implies #[trigger] t[i] != '\n' by {
            if i < prev.len() {
                assert(t[i] == prev[i]);
            } else if i == prev.len() {
            } else if i < prev.len() + 1 + cell.len() {
                assert(t[i] == cell[i - prev.len() - 1]);
            }
        }
    }
}

proof fn lemma_separator_no_line_break(n: nat)
    ensures
        no_line_break(separator_cells(n)),
    decreases n,
{
    if n > 0 {
        lemma_separator_no_line_break((n - 1) as nat);
        let prev = separator_cells((n - 1) as nat);
        let t = prev + seq![' ', '-', '-', '-', ' ', '|'];
        assert forall|i: int| 0 <= i < t.len() implies #[trigger] t[i] != '\n' by {
            if i < prev.len() {
                assert(t[i] == prev[i]);
            }
        }
    }
}

/// The table's column count is the length of its widest row: no row has
/// more cells than the table has columns, and some row has exactly that
/// many (none when there are no rows).
pub proof fn lemma_columns_fit_the_widest_row(rows: Seq<Seq<Seq<char>>>)
    ensures
        forall|k: int| 0 <= k < rows.len() ==> (#[trigger] rows[k]).len() <= max_cols(rows),
        rows.len() == 0 ==> max_cols(rows) == 0,
        rows.len() > 0 ==> exists|k: int| 0 <= k < rows.len() && #[trigger] rows[k].len() == max_cols(rows),
    decreases rows.len(),
{
    if rows.len() > 0 {
        let init = rows.drop_last();
        lemma_columns_fit_the_widest_row(init);
        assert forall|k: int| 0 <= k < rows.len() implies (#[trigger] rows[k]).len() <= max_cols(rows) by {
            if k < rows.len() - 1 {
                assert(rows[k] == init[k]);
            }
        }
        if rows.last().len() > max_cols(init) || init.len() == 0 {
            assert(rows[rows.len() - 1].len() == max_cols(rows));
        } else {
            let k = choose|k: int| 0 <= k < init.len() && #[trigger] init[k].len() == max_cols(init);
            assert(rows[k] == init[k]);
        }
    }
}

proof fn lemma_cells_prefix(row: Seq<Seq<char>>, m: nat, n: nat)
    requires
        m <= n,
    ensures
        render_cells(row, n).subrange(0, render_cells(row, m).len() as int) == render_cells(row, m),
        render_cells(row, m).len() <= render_cells(row, n).len(),
    decreases n,
{
    if m < n {
        lemma_cells_prefix(row, m, (n - 1) as nat);
        let a = render_cells(row, (n - 1) as nat);
        let b = render_cells(row, n);
        assert(b.subrange(0, a.len() as int) =~= a);
        assert(b.subrange(0, render_cells(row, m).len() as int) =~= a.subrange(
            0,
            render_cells(row, m).len() as int,
        ));
    }
}

/// No cell is lost: in a non-empty table, the line of every row begins with
/// all of that row's cells, each escaped, in order.
pub proof fn lemma_every_cell_is_written(rows: Seq<Seq<Seq<char>>>, k: int)
    requires
        0 <= k < rows.len(),
        max_cols(rows) > 0,
    ensures
        ({
            let line = table_lines(rows, max_cols(rows))[if k == 0 { 0 } else { k + 1 }];
            let cells = seq!['|'] + render_cells(rows[k], rows[k].len());
            cells.len() <= line.len() && line.subrange(0, cells.len() as int) == cells
        }),
{
    lemma_columns_fit_the_widest_row(rows);
    let cols = max_cols(rows);
    assert(rows[k].len() <= cols);
    lemma_cells_prefix(rows[k], rows[k].len(), cols);
    let line = table_lines(rows, cols)[if k == 0 { 0 } else { k + 1 }];
    if k > 0 {
        assert(rows.drop_first()[k - 1] == rows[k]);
    }
    assert(line == table_line(rows[k], cols));
    let cells = seq!['|'] + render_cells(rows[k], rows[k].len());
    assert(line.subrange(0, cells.len() as int) =~= cells);
}

/// A non-empty Markdown table is, line by line, the header row, the
/// separator and every other row in order, each line ending with a line
/// break and holding no other: one line more than there are rows.
pub proof fn lemma_table_line_by_line(rows: Seq<Seq<Seq<char>>>)
    requires
        rows.len() > 0,
        max_cols(rows) > 0,
    ensures
        spec_markdown_table(rows) == join_lines(table_lines(rows, max_cols(rows))),
        table_lines(rows, max_cols(rows)).len() == rows.len() + 1,
        forall|k: int|
            0 <= k < rows.len() + 1 ==> no_line_break(#[trigger] table_lines(rows, max_cols(rows))[k]),
{
    let cols = max_cols(rows);
    let head = seq![table_line(rows[0], cols), seq!['|'] + separator_cells(cols)];
    let rest = rows.drop_first().map_values(|r: Seq<Seq<char>>| table_line(r, cols));
    let lines = table_lines(rows, cols);
    lemma_join_lines_append(head, rest);
    lemma_render_rows_lines(rows.drop_first(), cols);
    assert(head.drop_last() =~= seq![table_line(rows[0], cols)]);
    let one = seq![table_line(rows[0], cols)];
    assert(one.drop_last() =~= Seq::<Seq<char>>::empty());
    assert(join_lines(one) == join_lines(one.drop_last()) + one.last() + seq!['\n']);
    assert(join_lines(one) =~= render_row(rows[0], cols));
    assert(join_lines(head) == join_lines(head.drop_last()) + head.last() + seq!['\n']);
    assert(join_lines(head) =~= render_row(rows[0], cols) + separator_row(cols));
    assert forall|k: int| 0 <= k < rows.len() + 1 implies no_line_break(#[trigger] lines[k]) by {
        if k == 0 {
            lemma_cells_no_line_break(rows[0], cols);
            let t = lines[0];
            assert forall|i: int| 0 <= i < t.len() implies #[trigger] t[i] != '\n' by {
                if i > 0 {
                    assert(t[i] == render_cells(rows[0], cols)[i - 1]);
                }
            }
        } else if k == 1 {
            lemma_separator_no_line_break(cols);
            let t = lines[1];
            assert forall|i: int| 0 <= i < t.len() implies #[trigger] t[i] != '\n' by {
                if i > 0 {
                    assert(t[i] == separator_cells(cols)[i - 1]);
                }
            }
        } else {
            let r = rows.drop_first()[k - 2];
            assert(lines[k] == table_line(r, cols));
            lemma_cells_no_line_break(r, cols);
            let t = lines[k];
            assert forall|i: int| 0 <= i < t.len() implies #[trigger] t[i] != '\n' by {
                if i > 0 {
                    assert(t[i] == render_cells(r, cols)[i - 1]);
                }
            }
        }
    }
}

fn escape_into(out: &mut Vec<char>, c: char)
    ensures
        final(out)@ == old(out)@ + escape_char(c),
{
    if c == '\\' {
        out.push('\\');
        out.push('\\');
    } else if c == '|' {
        out.push('\\');
        out.push('|');
    } else if c == '\n' || c == '\r' {
        out.push(' ');
    } else {
        out.push(c);
    }
    assert(out@ =~= old(out)@ + escape_char(c));
}

/// Writes a cell's text in the form a Markdown table can hold.
fn escape_cell_chars(s: &str) -> (r: Vec<char>)
    ensures
        r@ == spec_escape_cell(s@),
{
    let v = chars_of(s);
    let mut out: Vec<char> = Vec::new();
    let mut k: usize = 0;
    while k < v.len()
        invariant
            k <= v@.len(),
            out@ == escape_all(v@.subrange(0, k as int)),
        decreases v@.len() - k,
    {
        escape_into(&mut out, v[k]);
        proof {
            let t = v@.subrange(0, k + 1);
            assert(t.drop_last() =~= v@.subrange(0, k as int));
        }
        k += 1;
    }
    assert(v@.subrange(0, v@.len() as int) =~= v@);
    trim_chars(out.as_slice())
}

/// A cell's text in the form a Markdown table can hold: backslashes
/// doubled, pipes escaped, line breaks turned into spaces, then trimmed.
pub fn escape_cell(s: &str) -> (r: String)
    ensures
        r@ == spec_escape_cell(s@),
{
    let c = escape_cell_chars(s);
    string_of(c.as_slice())
}

fn render_row_into(out: &mut Vec<char>, row: &Vec<String>, cols: usize)
    ensures
        final(out)@ == old(out)@ + render_row(row.deep_view(), cols as nat),
{
    let ghost r = row.deep_view();
    let ghost start = out@;
    out.push('|');
    let mut c: usize = 0;
    while c < cols
        invariant
            c <= cols,
            r == row.deep_view(),
            out@ == start + seq!['|'] + render_cells(r, c as nat),
        decreases cols - c,
    {
        out.push(' ');
        if c < row.len() {
            let cell = escape_cell_chars(row[c].as_str());
            push_all(out, cell.as_slice());
        }
        out.push(' ');
        out.push('|');
        proof {
            assert(render_cells(r, (c + 1) as nat) == render_cells(r, c as nat) + seq![' ']
                + cell_at(r, c as int) + seq![' ', '|']);
        }
        c += 1;
        assert(out@ =~= start + seq!['|'] + render_cells(r, c as nat));
    }
    out.push('\n');
    assert(out@ =~= start + render_row(r, cols as nat));
}

/// Formats rows as a Markdown table. The first row is the header; every row
/// is padded to the widest row. No rows (or only empty rows) give `""`.
pub fn markdown_table(rows: &[Vec<String>]) -> (r: String)
    ensures
        r@ == spec_markdown_table(rows.deep_view()),
{
    let ghost d = rows.deep_view();
    // Widest row.
    let mut cols: usize = 0;
    let mut i: usize = 0;
    while i < rows.len()
        invariant
            i <= rows@.len(),
            d == rows.deep_view(),
            cols == max_cols(d.subrange(0, i as int)),
        decreases rows@.len() - i,
    {
        if rows[i].len() > cols {
            cols = rows[i].len();
        }
        proof {
            assert(d.subrange(0, i + 1).drop_last() =~= d.subrange(0, i as int));
            assert(d[i as int].len() == rows@[i as int]@.len());
        }
        i += 1;
    }
    assert(d.subrange(0, d.len() as int) =~= d);
    if rows.len() == 0 || cols == 0 {
        return String::new();
    }
    let mut out: Vec<char> = Vec::new();
    render_row_into(&mut out, &rows[0], cols);
    out.push('|');
    let mut c: usize = 0;
    while c < cols
        invariant
            c <= cols,
            out@ == render_row(d[0], cols as nat) + seq!['|'] + separator_cells(c as nat),
        decreases cols - c,
    {
        out.push(' ');
        out.push('-');
        out.push('-');
        out.push('-');
        out.push(' ');
        out.push('|');
        c += 1;
        assert(out@ =~= render_row(d[0], cols as nat) + seq!['|'] + separator_cells(c as nat));
    }
    out.push('\n');
    let ghost head = render_row(d[0], cols as nat) + separator_row(cols as nat);
    assert(out@ =~= head);
    let mut j: usize = 1;
    while j < rows.len()
        invariant
            1 <= j <= rows@.len(),
            d == rows.deep_view(),
            out@ == head + render_rows(d.subrange(1, j as int), cols as nat),
        decreases rows@.len() - j,
    {
        render_row_into(&mut out, &rows[j], cols);
        proof {
            let s = d.subrange(1, j + 1);
            assert(s.drop_last() =~= d.subrange(1, j as int));
            assert(s.last() == d[j as int]);
        }
        j += 1;
        assert(out@ =~= head + render_rows(d.subrange(1, j as int), cols as nat));
    }
    assert(d.subrange(1, d.len() as int) =~= d.drop_first());
    string_of(out.as_slice())
}

// ---------------------------------------------------------------------------
// Text sniffing
// ---------------------------------------------------------------------------

/// Bytes that count as printable text: `b >= 0x20` or a tab / line break.
pub open spec fn is_printable(b: u8) -> bool {
    b >= 0x20 || b == 0x0A || b == 0x0D || b == 0x09
}

/// Number of printable bytes in `s`.
pub open spec fn count_printable(s: Seq<u8>) -> nat
    decreases s.len(),
{
    if s.len() == 0 {
        0
    } else {
        count_printable(s.drop_last()) + if is_printable(s.last()) {
            1nat
        } else {
            0nat
        }
    }
}

/// The leading part of `bytes` that the text sniffing looks at.
pub open spec fn text_sample(bytes: Seq<u8>) -> Seq<u8> {
    if bytes.len() <= 4096 {
        bytes
    } else {
        bytes.subrange(0, 4096)
    }
}

/// Whether `bytes` looks like text: empty input does; a sample with a NUL
/// byte does not; a sample that is valid UTF-8 does; otherwise more than 85%
/// of the sample must be printable. The ratio test is stated exactly in
/// integers: `printable / len > 0.85` holds exactly when
/// `20 * printable > 17 * len`, and for sample lengths of at most 4096 the
/// floating-point comparison never lands on the other side.
pub open spec fn spec_looks_like_text(bytes: Seq<u8>) -> bool {
    let sample = text_sample(bytes);
    if bytes.len() == 0 {
        true
    } else if sample.contains(0u8) {
        false
    } else if spec_is_utf8(sample) {
        true
    } else {
        20 * count_printable(sample) > 17 * sample.len()
    }
}

/// Whether the leading sample of `bytes` looks like text.
pub fn looks_like_text(bytes: &[u8]) -> (r: bool)
    ensures
        r == spec_looks_like_text(bytes@),
{
    if bytes.len() == 0 {
        return true;
    }
    let n: usize = if bytes.len() < 4096 {
        bytes.len()
    } else {
        4096
    };
    let sample = vstd::slice::slice_subrange(bytes, 0, n);
    assert(sample@ =~= text_sample(bytes@));
    let mut k: usize = 0;
    let mut printable: usize = 0;
    while k < n
        invariant
            k <= n == sample@.len() <= 4096,
            bytes@.len() > 0,
            sample@ == text_sample(bytes@),
            printable == count_printable(sample@.subrange(0, k as int)),
            printable <= k,
            forall|j: int| 0 <= j < k ==> sample@[j] != 0u8,
        decreases n - k,
    {
        let b = sample[k];
        if b == 0 {
            assert(sample@[k as int] == 0u8);
            assert(sample@.contains(0u8));
            return false;
        }
        if b >= 0x20 || b == 0x0A || b == 0x0D || b == 0x09 {
            printable += 1;
        }
        proof {
            assert(sample@.subrange(0, k + 1).drop_last() =~= sample@.subrange(0, k as int));
        }
        k += 1;
    }
    assert(sample@.subrange(0, n as int) =~= sample@);
    assert(!sample@.contains(0u8));
    if is_utf8(sample) {
        return true;
    }
    20 * printable > 17 * n
}

// ---------------------------------------------------------------------------
// XML names
// ---------------------------------------------------------------------------

/// Index of the first `:` in a qualified name, if any.
pub open spec fn colon_pos(q: Seq<u8>) -> Option<int>
    decreases q.len(),
{
    if q.len() == 0 {
        None
    } else if q[0] == 0x3Au8 {
        Some(0)
    } else {
        match colon_pos(q.drop_first()) {
            Some(i) => Some(i + 1),
            None => None,
        }
    }
}

/// The local part of a qualified XML name (`w:p` gives `p`): the bytes after
/// the first `:`, or the whole name when there is none.
pub open spec fn spec_local_name(q: Seq<u8>) -> Seq<u8> {
    match colon_pos(q) {
        Some(i) => q.subrange(i + 1, q.len() as int),
        None => q,
    }
}

proof fn lemma_colon_pos(q: Seq<u8>)
    ensures
        match colon_pos(q) {
            Some(i) => 0 <= i < q.len() && q[i] == 0x3Au8 && forall|j: int|
                0 <= j < i ==> q[j] != 0x3Au8,
            None => forall|j: int| 0 <= j < q.len() ==> q[j] != 0x3Au8,
        },
    decreases q.len(),
{
    if q.len() > 0 && q[0] != 0x3Au8 {
        lemma_colon_pos(q.drop_first());
        match colon_pos(q.drop_first()) {
            Some(i) => {
                assert forall|j: int| 0 <= j < i + 1 implies q[j] != 0x3Au8 by {
                    if j > 0 {
                        assert(q[j] == q.drop_first()[j - 1]);
                    }
                }
            },
            None => {
                assert forall|j: int| 0 <= j < q.len() implies q[j] != 0x3Au8 by {
                    if j > 0 {
                        assert(q[j] == q.drop_first()[j - 1]);
                    }
                }
            },
        }
    }
}

/// The local part of a qualified XML name (`w:p` gives `p`).
pub fn local_name(qname: &[u8]) -> (r: &[u8])
    ensures
        r@ == spec_local_name(qname@),
{
    proof {
        lemma_colon_pos(qname@);
    }
    let mut k: usize = 0;
    while k < qname.len()
        invariant
            k <= qname@.len(),
            forall|j: int| 0 <= j < k ==> qname@[j] != 0x3Au8,
        decreases qname@.len() - k,
    {
        if qname[k] == 0x3A {
            proof {
                lemma_colon_pos(qname@);
                match colon_pos(qname@) {
                    Some(i) => {
                        if i < k {
                            assert(false);
                        }
                        assert(i == k);
                    },
                    None => {
                        assert(false);
                    },
                }
            }
            return vstd::slice::slice_subrange(qname, k + 1, qname.len());
        }
        k += 1;
    }
    proof {
        lemma_colon_pos(qname@);
        match colon_pos(qname@) {
            Some(i) => {
                assert(false);
            },
            None => {},
        }
    }
    qname
}

// ---------------------------------------------------------------------------
// Text decoding
// ---------------------------------------------------------------------------

/// The text of `bytes` decoded with the encoding that detection guesses.
pub open spec fn spec_decode_detected(bytes: Seq<u8>) -> Seq<char> {
    spec_decode(spec_guessed_encoding(bytes), bytes)
}

/// The text of `bytes`: decoded with the encoding that `charset` names when
/// it names one, otherwise with the encoding that detection guesses.
pub open spec fn spec_decode_text(bytes: Seq<u8>, charset: Option<Seq<char>>) -> Seq<char> {
    match charset {
        Some(label) => match spec_encoding_for_label(label) {
            Some(enc) => spec_decode(enc, bytes),
            None => spec_decode_detected(bytes),
        },
        None => spec_decode_detected(bytes),
    }
}

/// Decodes bytes to text, preferring the `charset` hint and otherwise
/// detecting the encoding.
pub fn decode_text(bytes: &[u8], charset: Option<&str>) -> (r: String)
    ensures
        r@ == spec_decode_text(bytes@, view_option(charset)),
{
    if let Some(label) = charset {
        if let Some(enc) = TextEncoding::for_label(label) {
            return enc.decode(bytes);
        }
    }
    let mut detector = Detector::new();
    detector.feed_all(bytes);
    let enc = detector.guess();
    enc.decode(bytes)
}

// ---------------------------------------------------------------------------
// ZIP entries
// ---------------------------------------------------------------------------

/// The names of an archive's entries, in order, or the error opening it.
pub open spec fn spec_zip_listing(bytes: Seq<u8>) -> Result<Seq<Seq<char>>, Seq<char>> {
    match spec_zip_open(bytes) {
        Ok(_) => Ok(spec_zip_names(bytes)),
        Err(e) => Err(e),
    }
}

/// Lists the names of an archive's entries.
pub fn zip_listing(bytes: &[u8]) -> (r: Result<Vec<String>, String>)
    ensures
        deep_result(r) == spec_zip_listing(bytes@),
{
    match ZipReader::open(bytes) {
        Ok(archive) => {
            let names = archive.file_names();
            assert(names.deep_view() =~= names@.map_values(|s: String| s@));
            Ok(names)
        },
        Err(e) => Err(e),
    }
}

/// The content of the entry called `name` in an archive: `None` when the
/// archive does not open, has no such entry, or the entry cannot be read.
pub open spec fn spec_zip_by_name(bytes: Seq<u8>, name: Seq<char>) -> Option<Seq<u8>> {
    match spec_zip_open(bytes) {
        Err(_) => None,
        Ok(_) => match spec_zip_index_of(bytes, name) {
            None => None,
            Some(i) => match spec_zip_read(bytes, i) {
                Err(_) => None,
                Ok(content) => content,
            },
        },
    }
}

/// Reads the entry called `name` out of a ZIP archive.
pub fn read_zip_entry(zip_bytes: &[u8], name: &str) -> (r: Option<Vec<u8>>)
    ensures
        view_option(r) == spec_zip_by_name(zip_bytes@, name@),
{
    let mut archive = match ZipReader::open(zip_bytes) {
        Ok(a) => a,
        Err(_) => return None,
    };
    let index = match archive.index_for_name(name) {
        Some(i) => i,
        None => return None,
    };
    match archive.read_entry(index) {
        Ok(content) => content,
        Err(_) => None,
    }
}

/// The entries of `names` that start with `prefix`, in order.
pub open spec fn names_with_prefix(names: Seq<Seq<char>>, prefix: Seq<char>) -> Seq<Seq<char>>
    decreases names.len(),
{
    if names.len() == 0 {
        Seq::empty()
    } else {
        let rest = names_with_prefix(names.drop_last(), prefix);
        if starts_with(names.last(), prefix) {
            rest.push(names.last())
        } else {
            rest
        }
    }
}

/// The names of a ZIP archive's entries that start with `prefix`, in archive
/// order; empty when the archive cannot be opened.
pub open spec fn spec_list_zip_entries(zip_bytes: Seq<u8>, prefix: Seq<char>) -> Seq<Seq<char>> {
    match spec_zip_listing(zip_bytes) {
        Ok(names) => names_with_prefix(names, prefix),
        Err(_) => Seq::empty(),
    }
}

/// Lists the entry names of a ZIP archive that start with `prefix`.
pub fn list_zip_entries(zip_bytes: &[u8], prefix: &str) -> (r: Vec<String>)
    ensures
        r.deep_view() == spec_list_zip_entries(zip_bytes@, prefix@),
{
    let names = match zip_listing(zip_bytes) {
        Ok(names) => names,
        Err(_) => {
            let r: Vec<String> = Vec::new();
            assert(r.deep_view() =~= Seq::<Seq<char>>::empty());
            return r;
        },
    };
    let ghost nd = names.deep_view();
    let p = chars_of(prefix);
    let mut out: Vec<String> = Vec::new();
    let mut i: usize = 0;
    while i < names.len()
        invariant
            i <= names@.len(),
            nd == names.deep_view(),
            p@ == prefix@,
            out.deep_view() == names_with_prefix(nd.subrange(0, i as int), p@),
        decreases names@.len() - i,
    {
        let name = chars_of(names[i].as_str());
        let ghost before = out.deep_view();
        if chars_starts_with(name.as_slice(), p.as_slice()) {
            out.push(names[i].clone());
            assert(out.deep_view() =~= before.push(nd[i as int]));
        }
        proof {
            assert(nd.subrange(0, i + 1).drop_last() =~= nd.subrange(0, i as int));
        }
        i += 1;
    }
    assert(nd.subrange(0, nd.len() as int) =~= nd);
    out
}

} // verus!
