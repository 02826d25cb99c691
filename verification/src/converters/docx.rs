//! DOCX conversion: `word/document.xml` is read for headings, paragraphs,
//! list items and tables.
use vstd::prelude::*;

use super::ooxml::{
    cell_end, cell_start, row_end, row_start, table_end, table_init, table_start, TableAcc,
    TableState,
};
use crate::bindings::std_text::{spec_utf8_lossy, utf8_lossy};
use crate::bindings::view_option;
use crate::bindings::xml::attribute_view;
use crate::error::{ErrorView, MarkItDownError};
use crate::number::{parse_unsigned, spec_parse_unsigned};
use crate::registry::{untitled, ConversionResult, Converted};
use crate::source::SourceContent;
use crate::text::{
    ascii_lower_seq, chars_eq_str, chars_of, chars_starts_with, copy_range, lower_ascii,
    push_all, push_str, starts_with, string_of, trim, trim_chars,
};
use crate::util::{spec_zip_by_name, local_name, read_zip_entry, spec_local_name, spec_markdown_table};
use crate::xml::{
    decode_xml_text, is_tag, lemma_office_tags_distinct, spec_decode_xml_text, spec_tag,
    spec_xml_tokens, tokens_text, tokens_view, xml_tokens, XmlTok, XmlToken,
};

verus! {

/// Converts DOCX documents to Markdown.
pub struct DocxConverter;

/// The Markdown heading level of a paragraph style: `Title` is 1 and
/// `HeadingN` is N for N in 1..=6 (ASCII case ignored, blanks around N
/// allowed).
pub open spec fn spec_heading_level(style: Seq<char>) -> Option<nat> {
    let lower = ascii_lower_seq(style);
    if lower == "title"@ {
        Some(1)
    } else if starts_with(lower, "heading"@) {
        let digits = trim(lower.subrange("heading"@.len() as int, lower.len() as int));
        match spec_parse_unsigned(digits, usize::MAX as nat) {
            Some(level) => if 1 <= level <= 6 {
                Some(level)
            } else {
                None
            },
            None => None,
        }
    } else {
        None
    }
}

fn ascii_lower_chars(s: &[char]) -> (r: Vec<char>)
    ensures
        r@ == ascii_lower_seq(s@),
{
    let mut r: Vec<char> = Vec::new();
    let mut k: usize = 0;
    while k < s.len()
        invariant
            k <= s@.len(),
            r@ == ascii_lower_seq(s@.subrange(0, k as int)),
        decreases s@.len() - k,
    {
        r.push(lower_ascii(s[k]));
        k += 1;
        assert(r@ =~= ascii_lower_seq(s@.subrange(0, k as int)));
    }
    assert(s@.subrange(0, s@.len() as int) =~= s@);
    r
}

/// The Markdown heading level of a paragraph style.
pub fn heading_level(style: &str) -> (r: Option<usize>)
    ensures
        match r {
            Some(l) => spec_heading_level(style@) == Some(l as nat),
            None => spec_heading_level(style@) is None,
        },
{
    let s = chars_of(style);
    let lower = ascii_lower_chars(s.as_slice());
    if chars_eq_str(lower.as_slice(), "title") {
        return Some(1);
    }
    let prefix = chars_of("heading");
    if !chars_starts_with(lower.as_slice(), prefix.as_slice()) {
        return None;
    }
    let rest = copy_range(lower.as_slice(), prefix.len(), lower.len());
    let digits = trim_chars(rest.as_slice());
    match parse_unsigned(digits.as_slice(), usize::MAX as u64) {
        Some(level) => {
            if 1 <= level && level <= 6 {
                Some(level as usize)
            } else {
                None
            }
        },
        None => None,
    }
}

/// `n` hash signs.
pub open spec fn hashes(n: nat) -> Seq<char>
    decreases n,
{
    if n == 0 {
        Seq::empty()
    } else {
        hashes((n - 1) as nat).push('#')
    }
}

/// The state of a DOCX reading.
pub struct DocxState {
    pub markdown: Seq<char>,
    pub para_text: Seq<char>,
    pub para_style: Option<Seq<char>>,
    pub para_list: bool,
    pub table: TableState,
}

/// Nothing read yet.
pub open spec fn docx_init() -> DocxState {
    DocxState {
        markdown: Seq::empty(),
        para_text: Seq::empty(),
        para_style: None,
        para_list: false,
        table: table_init(),
    }
}

/// Writes one paragraph: nothing when its trimmed text is empty; a heading
/// when its style has a heading level; a `- ` item when it is in a list;
/// a plain paragraph otherwise.
pub open spec fn spec_emit_paragraph(
    markdown: Seq<char>,
    text: Seq<char>,
    style: Option<Seq<char>>,
    is_list: bool,
) -> Seq<char> {
    let t = trim(text);
    let level = match style {
        Some(s) => spec_heading_level(s),
        None => None,
    };
    if t.len() == 0 {
        markdown
    } else if level is Some {
        markdown + hashes(level->0) + seq![' '] + t + seq!['\n', '\n']
    } else if is_list {
        markdown + seq!['-', ' '] + t + seq!['\n']
    } else {
        markdown + t + seq!['\n', '\n']
    }
}

/// The paragraph style that a `pStyle` element's attributes set: the value
/// of its last well-formed `val` attribute, or `current` when it has none.
pub open spec fn style_from_attrs(
    attrs: Seq<Option<(Seq<u8>, Seq<u8>)>>,
    current: Option<Seq<char>>,
) -> Option<Seq<char>>
    decreases attrs.len(),
{
    if attrs.len() == 0 {
        current
    } else {
        match attrs.last() {
            Some((key, value)) => if spec_local_name(key) == spec_tag("val"@) {
                Some(spec_utf8_lossy(value))
            } else {
                style_from_attrs(attrs.drop_last(), current)
            },
            None => style_from_attrs(attrs.drop_last(), current),
        }
    }
}

/// How one XML event changes the state.
pub open spec fn docx_step(s: DocxState, t: XmlTok) -> DocxState {
    match t {
        XmlTok::Start(n) => {
            let l = spec_local_name(n);
            if l == spec_tag("tbl"@) {
                DocxState { table: table_start(s.table), ..s }
            } else if l == spec_tag("tr"@) {
                DocxState { table: row_start(s.table), ..s }
            } else if l == spec_tag("tc"@) {
                DocxState { table: cell_start(s.table), ..s }
            } else if l == spec_tag("numPr"@) {
                DocxState { para_list: true, ..s }
            } else {
                s
            }
        },
        XmlTok::Empty(n, attrs) => {
            if spec_local_name(n) == spec_tag("pStyle"@) {
                DocxState { para_style: style_from_attrs(attrs, s.para_style), ..s }
            } else {
                s
            }
        },
        XmlTok::Text(raw) => {
            let text = spec_decode_xml_text(raw);
            if s.table.in_table {
                DocxState { table: TableState { cell: s.table.cell + text, ..s.table }, ..s }
            } else {
                DocxState { para_text: s.para_text + text, ..s }
            }
        },
        XmlTok::End(n) => {
            let l = spec_local_name(n);
            if l == spec_tag("tc"@) {
                DocxState { table: cell_end(s.table), ..s }
            } else if l == spec_tag("tr"@) {
                DocxState { table: row_end(s.table), ..s }
            } else if l == spec_tag("tbl"@) {
                DocxState {
                    table: table_end(s.table),
                    markdown: s.markdown + spec_markdown_table(s.table.rows) + seq!['\n'],
                    ..s
                }
            } else if l == spec_tag("p"@) && !s.table.in_table {
                DocxState {
                    markdown: spec_emit_paragraph(
                        s.markdown,
                        s.para_text,
                        s.para_style,
                        s.para_list,
                    ),
                    para_text: Seq::empty(),
                    para_style: None,
                    para_list: false,
                    ..s
                }
            } else {
                s
            }
        },
        XmlTok::Other => s,
    }
}

/// The state after reading `tokens` in order.
pub open spec fn docx_run(tokens: Seq<XmlTok>) -> DocxState
    decreases tokens.len(),
{
    if tokens.len() == 0 {
        docx_init()
    } else {
        docx_step(docx_run(tokens.drop_last()), tokens.last())
    }
}

/// The state after reading `tokens` in order from `s`.
pub open spec fn docx_run_from(s: DocxState, tokens: Seq<XmlTok>) -> DocxState
    decreases tokens.len(),
{
    if tokens.len() == 0 {
        s
    } else {
        docx_step(docx_run_from(s, tokens.drop_last()), tokens.last())
    }
}

/// Whether a token is a start tag with the local name `tag`.
pub open spec fn starts(t: XmlTok, tag: Seq<char>) -> bool {
    t matches XmlTok::Start(n) && spec_local_name(n) == spec_tag(tag)
}

/// Whether a token is an end tag with the local name `tag`.
pub open spec fn ends(t: XmlTok, tag: Seq<char>) -> bool {
    t matches XmlTok::End(n) && spec_local_name(n) == spec_tag(tag)
}

/// Whether a token belongs inside a paragraph without shaping it: no table
/// tag, no list marker (`numPr`), no style (`pStyle`), no paragraph end.
pub open spec fn plain_in_paragraph(t: XmlTok) -> bool {
    &&& !starts(t, "tbl"@) && !starts(t, "tr"@) && !starts(t, "tc"@) && !starts(t, "numPr"@)
    &&& !ends(t, "tbl"@) && !ends(t, "tr"@) && !ends(t, "tc"@) && !ends(t, "p"@)
    &&& !(t matches XmlTok::Empty(n, _) && spec_local_name(n) == spec_tag("pStyle"@))
}

proof fn lemma_plain_paragraph_run(a: DocxState, mid: Seq<XmlTok>)
    requires
        !a.table.in_table,
        forall|i: int| 0 <= i < mid.len() ==> plain_in_paragraph(#[trigger] mid[i]),
    ensures
        docx_run_from(a, mid).markdown == a.markdown,
        docx_run_from(a, mid).para_text == a.para_text + tokens_text(mid),
        docx_run_from(a, mid).para_style == a.para_style,
        docx_run_from(a, mid).para_list == a.para_list,
        !docx_run_from(a, mid).table.in_table,
    decreases mid.len(),
{
    if mid.len() > 0 {
        let init = mid.drop_last();
        assert forall|i: int| 0 <= i < init.len() implies plain_in_paragraph(#[trigger] init[i]) by {
            assert(init[i] == mid[i]);
        }
        lemma_plain_paragraph_run(a, init);
        let t = mid.last();
        assert(plain_in_paragraph(mid[mid.len() - 1]));
        let b = docx_run_from(a, init);
        match t {
            XmlTok::Text(raw) => {
                assert(b.para_text + spec_decode_xml_text(raw) =~= a.para_text + tokens_text(mid));
            },
            _ => {
                assert(tokens_text(mid) =~= tokens_text(init));
            },
        }
    }
}

/// A paragraph is written from its own tokens alone: after a paragraph ends
/// (outside a table), the next paragraph, made of text and tags that give
/// it no list marker and no style, is written from its own text as a plain
/// paragraph, never as a list item, whatever came before.
pub proof fn lemma_docx_paragraph_is_its_own(
    s: DocxState,
    p_end: XmlTok,
    mid: Seq<XmlTok>,
    q_end: XmlTok,
)
    requires
        ends(p_end, "p"@),
        ends(q_end, "p"@),
        !s.table.in_table,
        forall|i: int| 0 <= i < mid.len() ==> plain_in_paragraph(#[trigger] mid[i]),
    ensures
        ({
            let a = docx_step(s, p_end);
            let b = docx_run_from(a, mid);
            &&& !a.para_list && a.para_style is None && a.para_text.len() == 0
            &&& docx_step(b, q_end).markdown == spec_emit_paragraph(
                a.markdown,
                tokens_text(mid),
                None,
                false,
            )
        }),
{
    lemma_office_tags_distinct();
    let a = docx_step(s, p_end);
    assert(a.para_text =~= Seq::<char>::empty());
    lemma_plain_paragraph_run(a, mid);
    let b = docx_run_from(a, mid);
    assert(b.para_text =~= tokens_text(mid));
}

proof fn lemma_table_run(a1: DocxState, a2: DocxState, mid: Seq<XmlTok>)
    requires
        a1.table == a2.table,
        a1.table.in_table,
        forall|i: int| 0 <= i < mid.len() ==> !starts(#[trigger] mid[i], "tbl"@) && !ends(mid[i], "tbl"@),
    ensures
        docx_run_from(a1, mid).table == docx_run_from(a2, mid).table,
        docx_run_from(a1, mid).table.in_table,
        docx_run_from(a1, mid).markdown == a1.markdown,
        docx_run_from(a2, mid).markdown == a2.markdown,
    decreases mid.len(),
{
    if mid.len() > 0 {
        let init = mid.drop_last();
        assert forall|i: int| 0 <= i < init.len() implies !starts(#[trigger] init[i], "tbl"@) && !ends(
            init[i],
            "tbl"@,
        ) by {
            assert(init[i] == mid[i]);
        }
        lemma_table_run(a1, a2, init);
        assert(!starts(mid[mid.len() - 1], "tbl"@) && !ends(mid[mid.len() - 1], "tbl"@));
    }
}

/// Starting a table leaves no earlier rows, so every table is written from
/// the rows read between its own `<tbl>` and `</tbl>`: whatever was read
/// before (earlier tables included), the same table tokens add the same
/// Markdown, the table of those rows.
pub proof fn lemma_docx_table_holds_its_own_rows(
    s1: DocxState,
    s2: DocxState,
    open: XmlTok,
    mid: Seq<XmlTok>,
    close: XmlTok,
)
    requires
        starts(open, "tbl"@),
        ends(close, "tbl"@),
        forall|i: int| 0 <= i < mid.len() ==> !starts(#[trigger] mid[i], "tbl"@) && !ends(mid[i], "tbl"@),
        s1.table.cur_row == s2.table.cur_row,
        s1.table.cell == s2.table.cell,
    ensures
        docx_step(s1, open).table.rows.len() == 0,
        ({
            let b1 = docx_run_from(docx_step(s1, open), mid);
            let b2 = docx_run_from(docx_step(s2, open), mid);
            let added = spec_markdown_table(b1.table.rows) + seq!['\n'];
            &&& docx_step(b1, close).markdown == s1.markdown + added
            &&& docx_step(b2, close).markdown == s2.markdown + added
        }),
{
    lemma_office_tags_distinct();
    let a1 = docx_step(s1, open);
    let a2 = docx_step(s2, open);
    assert(a1.table == a2.table);
    lemma_table_run(a1, a2, mid);
}

/// What converting DOCX bytes yields: an error when `word/document.xml` is
/// missing or is not well-formed XML, otherwise the trimmed Markdown of its
/// paragraphs and tables.
pub open spec fn spec_docx(bytes: Seq<u8>) -> Result<Converted, ErrorView> {
    match spec_zip_by_name(bytes, "word/document.xml"@) {
        None => Err(ErrorView::Decode("docx"@, "missing word/document.xml"@)),
        Some(xml) => match spec_xml_tokens(xml) {
            Err(e) => Err(ErrorView::Decode("docx"@, e)),
            Ok(tokens) => Ok(untitled(trim(docx_run(tokens).markdown))),
        },
    }
}

struct DocxAcc {
    markdown: Vec<char>,
    para_text: Vec<char>,
    para_style: Option<String>,
    para_list: bool,
    table: TableAcc,
}

impl View for DocxAcc {
    type V = DocxState;

    closed spec fn view(&self) -> DocxState {
        DocxState {
            markdown: self.markdown@,
            para_text: self.para_text@,
            para_style: view_option(self.para_style),
            para_list: self.para_list,
            table: self.table@,
        }
    }
}

/// Writes one paragraph to the Markdown.
pub fn emit_paragraph(markdown: &mut Vec<char>, text: &[char], style: &Option<String>, is_list: bool)
    ensures
        final(markdown)@ == spec_emit_paragraph(old(markdown)@, text@, view_option(*style), is_list),
{
    let t = trim_chars(text);
    if t.len() == 0 {
        return;
    }
    let level = match style {
        Some(s) => heading_level(s.as_str()),
        None => None,
    };
    match level {
        Some(l) => {
            let ghost m0 = markdown@;
            let mut k: usize = 0;
            while k < l
                invariant
                    k <= l,
                    markdown@ == m0 + hashes(k as nat),
                decreases l - k,
            {
                markdown.push('#');
                k += 1;
                assert(markdown@ =~= m0 + hashes(k as nat));
            }
            markdown.push(' ');
            push_all(markdown, t.as_slice());
            markdown.push('\n');
            markdown.push('\n');
            assert(markdown@ =~= m0 + hashes(l as nat) + seq![' '] + t@ + seq!['\n', '\n']);
        },
        None => {
            if is_list {
                markdown.push('-');
                markdown.push(' ');
                push_all(markdown, t.as_slice());
                markdown.push('\n');
                assert(markdown@ =~= old(markdown)@ + seq!['-', ' '] + t@ + seq!['\n']);
            } else {
                push_all(markdown, t.as_slice());
                markdown.push('\n');
                markdown.push('\n');
                assert(markdown@ =~= old(markdown)@ + t@ + seq!['\n', '\n']);
            }
        },
    }
}

fn style_from_attributes(attrs: &Vec<Option<(Vec<u8>, Vec<u8>)>>, current: Option<String>) -> (r:
    Option<String>)
    ensures
        view_option(r) == style_from_attrs(
            attrs@.map_values(|a: Option<(Vec<u8>, Vec<u8>)>| attribute_view(a)),
            view_option(current),
        ),
{
    let ghost av = attrs@.map_values(|a: Option<(Vec<u8>, Vec<u8>)>| attribute_view(a));
    let mut style = current;
    let mut k: usize = 0;
    while k < attrs.len()
        invariant
            k <= attrs@.len(),
            av == attrs@.map_values(|a: Option<(Vec<u8>, Vec<u8>)>| attribute_view(a)),
            view_option(style) == style_from_attrs(av.subrange(0, k as int), view_option(current)),
        decreases attrs@.len() - k,
    {
        proof {
            let s = av.subrange(0, k + 1);
            assert(s.drop_last() =~= av.subrange(0, k as int));
            assert(s.last() == attribute_view(attrs@[k as int]));
        }
        match &attrs[k] {
            Some((key, value)) => {
                let lk = local_name(key.as_slice());
                if is_tag(lk, "val") {
                    style = Some(utf8_lossy(value.as_slice()));
                }
            },
            None => {},
        }
        k += 1;
    }
    assert(av.subrange(0, av.len() as int) =~= av);
    style
}

impl DocxAcc {
    fn step(&mut self, t: &XmlToken)
        ensures
            final(self)@ == docx_step(old(self)@, t@),
    {
        match t {
            XmlToken::Start(n) => {
                let l = local_name(n.as_slice());
                if is_tag(l, "tbl") {
                    self.table.start_table();
                } else if is_tag(l, "tr") {
                    self.table.start_row();
                } else if is_tag(l, "tc") {
                    self.table.start_cell();
                } else if is_tag(l, "numPr") {
                    self.para_list = true;
                }
            },
            XmlToken::Empty(n, attrs) => {
                let l = local_name(n.as_slice());
                if is_tag(l, "pStyle") {
                    let mut cur: Option<String> = None;
                    std::mem::swap(&mut cur, &mut self.para_style);
                    self.para_style = style_from_attributes(attrs, cur);
                }
            },
            XmlToken::Text(raw) => {
                let text = match raw {
                    Some(r) => decode_xml_text(Some(r.as_str())),
                    None => decode_xml_text(None),
                };
                if self.table.in_table {
                    self.table.add_cell_text(text.as_str());
                } else {
                    push_str(&mut self.para_text, text.as_str());
                }
            },
            XmlToken::End(n) => {
                let l = local_name(n.as_slice());
                if is_tag(l, "tc") {
                    self.table.end_cell();
                } else if is_tag(l, "tr") {
                    self.table.end_row();
                } else if is_tag(l, "tbl") {
                    self.table.end_table(&mut self.markdown);
                } else if is_tag(l, "p") && !self.table.in_table {
                    emit_paragraph(
                        &mut self.markdown,
                        self.para_text.as_slice(),
                        &self.para_style,
                        self.para_list,
                    );
                    self.para_text = Vec::new();
                    self.para_style = None;
                    self.para_list = false;
                }
            },
            XmlToken::Other => {},
        }
    }
}

impl DocxConverter {
    /// Converts DOCX bytes to Markdown.
    pub fn convert(&self, src: &SourceContent) -> (r: Result<ConversionResult, MarkItDownError>)
        ensures
            crate::bindings::view_result(r) == spec_docx(src.bytes@),
    {
        let xml = match read_zip_entry(src.bytes.as_slice(), "word/document.xml") {
            Some(x) => x,
            None => {
                return Err(
                    MarkItDownError::decode(
                        String::from_str("docx"),
                        String::from_str("missing word/document.xml"),
                    ),
                )
            },
        };
        let tokens = match xml_tokens(xml.as_slice()) {
            Ok(t) => t,
            Err(e) => return Err(MarkItDownError::decode(String::from_str("docx"), e)),
        };
        let ghost tv = tokens_view(tokens@);
        let mut acc = DocxAcc {
            markdown: Vec::new(),
            para_text: Vec::new(),
            para_style: None,
            para_list: false,
            table: TableAcc::new(),
        };
        assert(acc@ == docx_run(tv.subrange(0, 0)));
        let mut i: usize = 0;
        while i < tokens.len()
            invariant
                i <= tokens@.len(),
                tv == tokens_view(tokens@),
                acc@ == docx_run(tv.subrange(0, i as int)),
            decreases tokens@.len() - i,
        {
            acc.step(&tokens[i]);
            proof {
                let s = tv.subrange(0, i + 1);
                assert(s.drop_last() =~= tv.subrange(0, i as int));
                assert(s.last() == tokens@[i as int]@);
            }
            i += 1;
        }
        assert(tv.subrange(0, tv.len() as int) =~= tv);
        let md = trim_chars(acc.markdown.as_slice());
        Ok(ConversionResult::text(string_of(md.as_slice())))
    }
}

} // verus!
