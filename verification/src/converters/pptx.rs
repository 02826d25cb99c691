//! PPTX conversion: the `ppt/slides/slideN.xml` parts are read in numeric
//! order and their text and tables written as Markdown.
use vstd::prelude::*;

use super::ooxml::{
    cell_end, cell_start, row_end, row_start, table_end, table_init, table_start, TableAcc,
    TableState,
};
use crate::bindings::view_option;
use crate::error::{ErrorView, MarkItDownError};
use crate::number::{decimal, parse_unsigned, spec_decimal, spec_parse_unsigned};
use crate::registry::{untitled, ConversionResult, Converted};
use crate::source::SourceContent;
use crate::text::{
    chars_ends_with, chars_of, chars_starts_with, copy_range, ends_with, push_all, push_str,
    starts_with, string_of, trim, trim_bounds, trim_chars,
};
use crate::util::{spec_zip_by_name, 
    list_zip_entries, local_name, read_zip_entry, spec_list_zip_entries, spec_local_name,
    spec_markdown_table,
};
use crate::converters::docx::{ends, starts};
use crate::xml::{
    decode_xml_text, is_tag, lemma_office_tags_distinct, spec_decode_xml_text, spec_tag,
    spec_xml_tokens, tokens_text, tokens_view, xml_tokens,
    XmlTok, XmlToken,
};

verus! {

/// Converts PPTX presentations to Markdown, slide by slide.
pub struct PptxConverter;

// ---------------------------------------------------------------------------
// Slide order
// ---------------------------------------------------------------------------

/// `s.trim_start_matches(p)`: `p` removed from the front as often as it
/// occurs there.
pub open spec fn trim_start_matches(s: Seq<char>, p: Seq<char>) -> Seq<char>
    decreases s.len(),
{
    if p.len() > 0 && starts_with(s, p) {
        trim_start_matches(s.subrange(p.len() as int, s.len() as int), p)
    } else {
        s
    }
}

/// `s.trim_end_matches(p)`: `p` removed from the back as often as it occurs
/// there.
pub open spec fn trim_end_matches(s: Seq<char>, p: Seq<char>) -> Seq<char>
    decreases s.len(),
{
    if p.len() > 0 && ends_with(s, p) {
        trim_end_matches(s.subrange(0, s.len() - p.len()), p)
    } else {
        s
    }
}

/// The number of a slide part (`ppt/slides/slide12.xml` gives 12), or
/// `u32::MAX` when the name holds no number.
pub open spec fn spec_slide_number(name: Seq<char>) -> nat {
    let core = trim_end_matches(trim_start_matches(name, "ppt/slides/slide"@), ".xml"@);
    match spec_parse_unsigned(core, u32::MAX as nat) {
        Some(n) => n,
        None => u32::MAX as nat,
    }
}

fn trim_start_matches_chars(s: &[char], p: &[char]) -> (r: Vec<char>)
    ensures
        r@ == trim_start_matches(s@, p@),
{
    let mut cur = copy_range(s, 0, s.len());
    assert(s@.subrange(0, s@.len() as int) =~= s@);
    while p.len() > 0 && chars_starts_with(cur.as_slice(), p)
        invariant
            trim_start_matches(cur@, p@) == trim_start_matches(s@, p@),
        decreases cur@.len(),
    {
        cur = copy_range(cur.as_slice(), p.len(), cur.len());
    }
    cur
}

fn trim_end_matches_chars(s: &[char], p: &[char]) -> (r: Vec<char>)
    ensures
        r@ == trim_end_matches(s@, p@),
{
    let mut cur = copy_range(s, 0, s.len());
    assert(s@.subrange(0, s@.len() as int) =~= s@);
    while p.len() > 0 && chars_ends_with(cur.as_slice(), p)
        invariant
            trim_end_matches(cur@, p@) == trim_end_matches(s@, p@),
        decreases cur@.len(),
    {
        cur = copy_range(cur.as_slice(), 0, cur.len() - p.len());
    }
    cur
}

/// The number of a slide part, used to order the slides.
pub fn slide_number(name: &str) -> (r: u32)
    ensures
        r as nat == spec_slide_number(name@),
{
    let n = chars_of(name);
    let prefix = chars_of("ppt/slides/slide");
    let suffix = chars_of(".xml");
    let a = trim_start_matches_chars(n.as_slice(), prefix.as_slice());
    let b = trim_end_matches_chars(a.as_slice(), suffix.as_slice());
    match parse_unsigned(b.as_slice(), u32::MAX as u64) {
        Some(v) => v as u32,
        None => u32::MAX,
    }
}

/// `x` placed after every entry of `sorted` whose key is not larger.
pub open spec fn insert_by_key(sorted: Seq<(nat, Seq<char>)>, x: (nat, Seq<char>)) -> Seq<
    (nat, Seq<char>),
>
    decreases sorted.len(),
{
    if sorted.len() == 0 {
        seq![x]
    } else if sorted[0].0 > x.0 {
        seq![x] + sorted
    } else {
        seq![sorted[0]] + insert_by_key(sorted.drop_first(), x)
    }
}

/// `items` in the order of a stable sort by key.
pub open spec fn sort_by_key(items: Seq<(nat, Seq<char>)>) -> Seq<(nat, Seq<char>)>
    decreases items.len(),
{
    if items.len() == 0 {
        Seq::empty()
    } else {
        insert_by_key(sort_by_key(items.drop_last()), items.last())
    }
}

/// Whether the keys never decrease.
pub open spec fn keys_sorted(s: Seq<(nat, Seq<char>)>) -> bool {
    forall|i: int, j: int| 0 <= i <= j < s.len() ==> s[i].0 <= s[j].0
}

proof fn lemma_insert_at(sorted: Seq<(nat, Seq<char>)>, x: (nat, Seq<char>), p: int)
    requires
        0 <= p <= sorted.len(),
        forall|j: int| 0 <= j < p ==> sorted[j].0 <= x.0,
        p < sorted.len() ==> sorted[p].0 > x.0,
    ensures
        insert_by_key(sorted, x) == sorted.insert(p, x),
    decreases sorted.len(),
{
    if sorted.len() == 0 {
        assert(sorted.insert(p, x) =~= seq![x]);
    } else if sorted[0].0 > x.0 {
        assert(p == 0);
        assert(sorted.insert(p, x) =~= seq![x] + sorted);
    } else {
        assert(p > 0);
        let t = sorted.drop_first();
        assert forall|j: int| 0 <= j < p - 1 implies t[j].0 <= x.0 by {
            assert(t[j] == sorted[j + 1]);
        }
        if p < sorted.len() {
            assert(t[p - 1] == sorted[p]);
        }
        lemma_insert_at(t, x, p - 1);
        assert(seq![sorted[0]] + t.insert(p - 1, x) =~= sorted.insert(p, x));
    }
}

/// A stable sort by key leaves the keys in non-decreasing order.
pub proof fn lemma_sort_by_key_sorted(items: Seq<(nat, Seq<char>)>)
    ensures
        keys_sorted(sort_by_key(items)),
        sort_by_key(items).len() == items.len(),
    decreases items.len(),
{
    if items.len() > 0 {
        lemma_sort_by_key_sorted(items.drop_last());
        lemma_insert_sorted(sort_by_key(items.drop_last()), items.last());
    }
}

proof fn lemma_insert_sorted(sorted: Seq<(nat, Seq<char>)>, x: (nat, Seq<char>))
    requires
        keys_sorted(sorted),
    ensures
        keys_sorted(insert_by_key(sorted, x)),
        insert_by_key(sorted, x).len() == sorted.len() + 1,
        forall|i: int|
            0 <= i < insert_by_key(sorted, x).len() ==> #[trigger] insert_by_key(sorted, x)[i].0
                == x.0 || exists|j: int|
                0 <= j < sorted.len() && sorted[j].0 == insert_by_key(sorted, x)[i].0,
    decreases sorted.len(),
{
    if sorted.len() == 0 {
    } else if sorted[0].0 > x.0 {
        let r = seq![x] + sorted;
        assert forall|i: int| 0 <= i < r.len() implies #[trigger] r[i].0 == x.0 || exists|j: int|
            0 <= j < sorted.len() && sorted[j].0 == r[i].0 by {
            if i > 0 {
                assert(r[i] == sorted[i - 1]);
            }
        }
    } else {
        let t = sorted.drop_first();
        assert forall|i: int, j: int| 0 <= i <= j < t.len() implies t[i].0 <= t[j].0 by {
            assert(t[i] == sorted[i + 1]);
            assert(t[j] == sorted[j + 1]);
        }
        lemma_insert_sorted(t, x);
        let u = insert_by_key(t, x);
        let r = seq![sorted[0]] + u;
        assert forall|i: int| 0 <= i < r.len() implies #[trigger] r[i].0 == x.0 || exists|j: int|
            0 <= j < sorted.len() && sorted[j].0 == r[i].0 by {
            if i == 0 {
                assert(sorted[0].0 == r[0].0);
            } else {
                assert(r[i] == u[i - 1]);
                if u[i - 1].0 != x.0 {
                    let j = choose|j: int| 0 <= j < t.len() && t[j].0 == u[i - 1].0;
                    assert(sorted[j + 1] == t[j]);
                }
            }
        }
        assert forall|i: int, j: int| 0 <= i <= j < r.len() implies r[i].0 <= r[j].0 by {
            if i == 0 && j > 0 {
                assert(r[j] == u[j - 1]);
                if u[j - 1].0 != x.0 {
                    let k = choose|k: int| 0 <= k < t.len() && t[k].0 == u[j - 1].0;
                    assert(t[k] == sorted[k + 1]);
                }
            } else if i > 0 {
                assert(r[i] == u[i - 1]);
                assert(r[j] == u[j - 1]);
            }
        }
    }
}

/// The slide parts of a presentation: entries under `ppt/slides/slide`
/// that end in `.xml`, in archive order.
pub open spec fn slide_parts(names: Seq<Seq<char>>) -> Seq<Seq<char>>
    decreases names.len(),
{
    if names.len() == 0 {
        Seq::empty()
    } else if ends_with(names.last(), ".xml"@) {
        slide_parts(names.drop_last()).push(names.last())
    } else {
        slide_parts(names.drop_last())
    }
}

/// The slide parts ordered by slide number (ties keep archive order).
pub open spec fn ordered_slides(bytes: Seq<u8>) -> Seq<Seq<char>> {
    let parts = slide_parts(spec_list_zip_entries(bytes, "ppt/slides/slide"@));
    sort_by_key(parts.map_values(|n: Seq<char>| (spec_slide_number(n), n))).map_values(
        |p: (nat, Seq<char>)| p.1,
    )
}

fn ordered_slide_names(bytes: &[u8]) -> (r: Vec<String>)
    ensures
        r.deep_view() == ordered_slides(bytes@),
{
    let names = list_zip_entries(bytes, "ppt/slides/slide");
    let ghost nd = names.deep_view();
    let suffix = chars_of(".xml");
    let mut parts: Vec<String> = Vec::new();
    let mut i: usize = 0;
    while i < names.len()
        invariant
            i <= names@.len(),
            nd == names.deep_view(),
            suffix@ == ".xml"@,
            parts.deep_view() == slide_parts(nd.subrange(0, i as int)),
        decreases names@.len() - i,
    {
        let n = chars_of(names[i].as_str());
        let ghost before = parts.deep_view();
        proof {
            assert(nd.subrange(0, i + 1).drop_last() =~= nd.subrange(0, i as int));
        }
        if chars_ends_with(n.as_slice(), suffix.as_slice()) {
            parts.push(names[i].clone());
            assert(parts.deep_view() =~= before.push(nd[i as int]));
        }
        i += 1;
    }
    assert(nd.subrange(0, nd.len() as int) =~= nd);
    let ghost pd = parts.deep_view();
    let ghost keyed = pd.map_values(|n: Seq<char>| (spec_slide_number(n), n));
    // Stable insertion sort by slide number.
    let mut sorted: Vec<(u32, String)> = Vec::new();
    let mut k: usize = 0;
    while k < parts.len()
        invariant
            k <= parts@.len(),
            pd == parts.deep_view(),
            keyed == pd.map_values(|n: Seq<char>| (spec_slide_number(n), n)),
            sorted@.map_values(|p: (u32, String)| (p.0 as nat, p.1@)) == sort_by_key(
                keyed.subrange(0, k as int),
            ),
        decreases parts@.len() - k,
    {
        let key = slide_number(parts[k].as_str());
        let ghost sv = sorted@.map_values(|p: (u32, String)| (p.0 as nat, p.1@));
        let ghost x = (key as nat, parts@[k as int]@);
        let mut p: usize = 0;
        while p < sorted.len() && sorted[p].0 <= key
            invariant
                p <= sorted@.len(),
                sv == sorted@.map_values(|p: (u32, String)| (p.0 as nat, p.1@)),
                forall|j: int| 0 <= j < p ==> sv[j].0 <= key,
            decreases sorted@.len() - p,
        {
            p += 1;
        }
        proof {
            assert(keyed.subrange(0, k + 1).drop_last() =~= keyed.subrange(0, k as int));
            assert(keyed[k as int] == x);
            lemma_insert_at(sv, x, p as int);
        }
        sorted.insert(p, (key, parts[k].clone()));
        assert(sorted@.map_values(|p: (u32, String)| (p.0 as nat, p.1@)) =~= sv.insert(p as int, x));
        k += 1;
    }
    assert(keyed.subrange(0, keyed.len() as int) =~= keyed);
    let ghost sv = sorted@.map_values(|p: (u32, String)| (p.0 as nat, p.1@));
    let mut out: Vec<String> = Vec::new();
    let mut j: usize = 0;
    while j < sorted.len()
        invariant
            j <= sorted@.len(),
            sv == sorted@.map_values(|p: (u32, String)| (p.0 as nat, p.1@)),
            out.deep_view() == sv.subrange(0, j as int).map_values(|p: (nat, Seq<char>)| p.1),
        decreases sorted@.len() - j,
    {
        let ghost before = out.deep_view();
        let name = sorted[j].1.clone();
        assert(name@ == sv[j as int].1);
        out.push(name);
        assert(out.deep_view() =~= before.push(sv[j as int].1));
        assert(sv.subrange(0, j + 1).map_values(|p: (nat, Seq<char>)| p.1) =~= sv.subrange(
            0,
            j as int,
        ).map_values(|p: (nat, Seq<char>)| p.1).push(sv[j as int].1));
        j += 1;
    }
    assert(sv.subrange(0, sv.len() as int) =~= sv);
    out
}

// ---------------------------------------------------------------------------
// Slide text
// ---------------------------------------------------------------------------

/// The state of a slide reading.
pub struct SlideState {
    pub out: Seq<char>,
    pub para: Seq<char>,
    pub table: TableState,
}

pub open spec fn slide_init() -> SlideState {
    SlideState { out: Seq::empty(), para: Seq::empty(), table: table_init() }
}

/// How one XML event changes the state of a slide reading: paragraphs
/// (`a:p`) outside tables become lines of their own; tables become Markdown
/// tables.
pub open spec fn slide_step(s: SlideState, t: XmlTok) -> SlideState {
    match t {
        XmlTok::Start(n) => {
            let l = spec_local_name(n);
            if l == spec_tag("tbl"@) {
                SlideState { table: table_start(s.table), ..s }
            } else if l == spec_tag("tr"@) {
                SlideState { table: row_start(s.table), ..s }
            } else if l == spec_tag("tc"@) {
                SlideState { table: cell_start(s.table), ..s }
            } else {
                s
            }
        },
        XmlTok::Text(raw) => {
            let text = spec_decode_xml_text(raw);
            if s.table.in_table {
                SlideState { table: TableState { cell: s.table.cell + text, ..s.table }, ..s }
            } else {
                SlideState { para: s.para + text, ..s }
            }
        },
        XmlTok::End(n) => {
            let l = spec_local_name(n);
            if l == spec_tag("tc"@) {
                SlideState { table: cell_end(s.table), ..s }
            } else if l == spec_tag("tr"@) {
                SlideState { table: row_end(s.table), ..s }
            } else if l == spec_tag("tbl"@) {
                SlideState {
                    table: table_end(s.table),
                    out: s.out + spec_markdown_table(s.table.rows) + seq!['\n'],
                    ..s
                }
            } else if l == spec_tag("p"@) {
                let line = trim(s.para);
                SlideState {
                    out: if !s.table.in_table && line.len() > 0 {
                        s.out + line + seq!['\n', '\n']
                    } else {
                        s.out
                    },
                    para: Seq::empty(),
                    ..s
                }
            } else {
                s
            }
        },
        _ => s,
    }
}

pub open spec fn slide_run(tokens: Seq<XmlTok>) -> SlideState
    decreases tokens.len(),
{
    if tokens.len() == 0 {
        slide_init()
    } else {
        slide_step(slide_run(tokens.drop_last()), tokens.last())
    }
}

/// The state after reading `tokens` in order from `s`.
pub open spec fn slide_run_from(s: SlideState, tokens: Seq<XmlTok>) -> SlideState
    decreases tokens.len(),
{
    if tokens.len() == 0 {
        s
    } else {
        slide_step(slide_run_from(s, tokens.drop_last()), tokens.last())
    }
}

/// Whether a token belongs inside a slide paragraph without shaping it: no
/// table tag and no paragraph end.
pub open spec fn plain_in_slide_paragraph(t: XmlTok) -> bool {
    &&& !starts(t, "tbl"@) && !starts(t, "tr"@) && !starts(t, "tc"@)
    &&& !ends(t, "tbl"@) && !ends(t, "tr"@) && !ends(t, "tc"@) && !ends(t, "p"@)
}

proof fn lemma_plain_slide_run(a: SlideState, mid: Seq<XmlTok>)
    requires
        !a.table.in_table,
        forall|i: int| 0 <= i < mid.len() ==> plain_in_slide_paragraph(#[trigger] mid[i]),
    ensures
        slide_run_from(a, mid).out == a.out,
        slide_run_from(a, mid).para == a.para + tokens_text(mid),
        !slide_run_from(a, mid).table.in_table,
    decreases mid.len(),
{
    if mid.len() > 0 {
        let init = mid.drop_last();
        assert forall|i: int| 0 <= i < init.len() implies plain_in_slide_paragraph(#[trigger] init[i]) by {
            assert(init[i] == mid[i]);
        }
        lemma_plain_slide_run(a, init);
        assert(plain_in_slide_paragraph(mid[mid.len() - 1]));
        let b = slide_run_from(a, init);
        match mid.last() {
            XmlTok::Text(raw) => {
                assert(b.para + spec_decode_xml_text(raw) =~= a.para + tokens_text(mid));
            },
            _ => {
                assert(tokens_text(mid) =~= tokens_text(init));
            },
        }
    }
}

/// Every line a slide writes is the trimmed text of one `a:p` element
/// alone: after a paragraph ends (outside a table), the next paragraph
/// writes exactly its own trimmed text as a line (nothing when that is
/// empty), never text of an earlier paragraph.
pub proof fn lemma_slide_line_is_its_own_paragraph(
    s: SlideState,
    p_end: XmlTok,
    mid: Seq<XmlTok>,
    q_end: XmlTok,
)
    requires
        ends(p_end, "p"@),
        ends(q_end, "p"@),
        !s.table.in_table,
        forall|i: int| 0 <= i < mid.len() ==> plain_in_slide_paragraph(#[trigger] mid[i]),
    ensures
        ({
            let a = slide_step(s, p_end);
            let b = slide_run_from(a, mid);
            let line = trim(tokens_text(mid));
            &&& a.para.len() == 0
            &&& slide_step(b, q_end).out == if line.len() > 0 {
                a.out + line + seq!['\n', '\n']
            } else {
                a.out
            }
        }),
{
    lemma_office_tags_distinct();
    let a = slide_step(s, p_end);
    assert(a.para =~= Seq::<char>::empty());
    lemma_plain_slide_run(a, mid);
    let b = slide_run_from(a, mid);
    assert(b.para =~= tokens_text(mid));
}

/// The Markdown of one slide's XML, or the reading error.
pub open spec fn spec_parse_slide(xml: Seq<u8>) -> Result<Seq<char>, ErrorView> {
    match spec_xml_tokens(xml) {
        Err(e) => Err(ErrorView::Decode("pptx"@, e)),
        Ok(tokens) => Ok(slide_run(tokens).out),
    }
}

struct SlideAcc {
    out: Vec<char>,
    para: Vec<char>,
    table: TableAcc,
}

impl View for SlideAcc {
    type V = SlideState;

    closed spec fn view(&self) -> SlideState {
        SlideState { out: self.out@, para: self.para@, table: self.table@ }
    }
}

impl SlideAcc {
    fn step(&mut self, t: &XmlToken)
        ensures
            final(self)@ == slide_step(old(self)@, t@),
    {
        match t {
            XmlToken::Start(n) => {
                let l = local_name(n.as_slice());
                if is_tag(l, "tbl") {
                    self.table.start_table();
                } else if is_tag(l, "tr") {
                    self.table.start_row();
                } else if is_tag(l, "tc") {
                    self.table.start_cell();
                }
            },
            XmlToken::Text(raw) => {
                let text = match raw {
                    Some(r) => decode_xml_text(Some(r.as_str())),
                    None => decode_xml_text(None),
                };
                if self.table.in_table {
                    self.table.add_cell_text(text.as_str());
                } else {
                    push_str(&mut self.para, text.as_str());
                }
            },
            XmlToken::End(n) => {
                let l = local_name(n.as_slice());
                if is_tag(l, "tc") {
                    self.table.end_cell();
                } else if is_tag(l, "tr") {
                    self.table.end_row();
                } else if is_tag(l, "tbl") {
                    self.table.end_table(&mut self.out);
                } else if is_tag(l, "p") {
                    if !self.table.in_table {
                        let line = trim_chars(self.para.as_slice());
                        if line.len() > 0 {
                            push_all(&mut self.out, line.as_slice());
                            self.out.push('\n');
                            self.out.push('\n');
                            assert(self.out@ =~= old(self)@.out + line@ + seq!['\n', '\n']);
                        }
                    }
                    self.para = Vec::new();
                }
            },
            _ => {},
        }
    }
}

/// Extracts the text paragraphs and tables of one slide's XML.
fn parse_slide(xml: &[u8]) -> (r: Result<Vec<char>, MarkItDownError>)
    ensures
        match r {
            Ok(v) => spec_parse_slide(xml@) == Ok::<Seq<char>, ErrorView>(v@),
            Err(e) => spec_parse_slide(xml@) == Err::<Seq<char>, ErrorView>(e@),
        },
{
    let tokens = match xml_tokens(xml) {
        Ok(t) => t,
        Err(e) => return Err(MarkItDownError::decode(String::from_str("pptx"), e)),
    };
    let ghost tv = tokens_view(tokens@);
    let mut acc = SlideAcc { out: Vec::new(), para: Vec::new(), table: TableAcc::new() };
    assert(acc@ == slide_run(tv.subrange(0, 0)));
    let mut i: usize = 0;
    while i < tokens.len()
        invariant
            i <= tokens@.len(),
            tv == tokens_view(tokens@),
            acc@ == slide_run(tv.subrange(0, i as int)),
        decreases tokens@.len() - i,
    {
        acc.step(&tokens[i]);
        proof {
            let s = tv.subrange(0, i + 1);
            assert(s.drop_last() =~= tv.subrange(0, i as int));
            assert(s.last() == tokens@[i as int]@);
        }
        i += 1;
    }
    assert(tv.subrange(0, tv.len() as int) =~= tv);
    Ok(acc.out)
}

// ---------------------------------------------------------------------------
// Presentation
// ---------------------------------------------------------------------------

/// The Markdown of the first slides in `slides` (each under a
/// `## Slide N` heading), or the first slide error.
pub open spec fn slides_markdown(bytes: Seq<u8>, slides: Seq<Seq<char>>) -> Result<
    Seq<char>,
    ErrorView,
>
    decreases slides.len(),
{
    if slides.len() == 0 {
        Ok(Seq::empty())
    } else {
        match slides_markdown(bytes, slides.drop_last()) {
            Err(e) => Err(e),
            Ok(md) => {
                let head = md + "## Slide "@ + spec_decimal(slides.len()) + seq!['\n', '\n'];
                match spec_zip_by_name(bytes, slides.last()) {
                    None => Ok(head + seq!['\n']),
                    Some(xml) => match spec_parse_slide(xml) {
                        Err(e) => Err(e),
                        Ok(text) => Ok(head + text + seq!['\n']),
                    },
                }
            },
        }
    }
}

/// What converting PPTX bytes yields: an error when there is no slide part
/// or a slide is not well-formed XML, otherwise the trimmed Markdown of the
/// slides in order.
pub open spec fn spec_pptx(bytes: Seq<u8>) -> Result<Converted, ErrorView> {
    let slides = ordered_slides(bytes);
    if slides.len() == 0 {
        Err(ErrorView::Decode("pptx"@, "no slides found"@))
    } else {
        match slides_markdown(bytes, slides) {
            Err(e) => Err(e),
            Ok(md) => Ok(untitled(trim(md))),
        }
    }
}

/// A slide error is always a `pptx` decode error.
pub proof fn lemma_slides_errors_are_decode(bytes: Seq<u8>, slides: Seq<Seq<char>>)
    ensures
        slides_markdown(bytes, slides) matches Err(e) ==> e is Decode,
    decreases slides.len(),
{
    if slides.len() > 0 {
        lemma_slides_errors_are_decode(bytes, slides.drop_last());
    }
}

proof fn lemma_slides_error_sticks(bytes: Seq<u8>, slides: Seq<Seq<char>>, k: int)
    requires
        0 <= k <= slides.len(),
        slides_markdown(bytes, slides.subrange(0, k)) is Err,
    ensures
        slides_markdown(bytes, slides) == slides_markdown(bytes, slides.subrange(0, k)),
    decreases slides.len() - k,
{
    if k < slides.len() {
        assert(slides.subrange(0, k + 1).drop_last() =~= slides.subrange(0, k));
        lemma_slides_error_sticks(bytes, slides, k + 1);
    } else {
        assert(slides.subrange(0, k) =~= slides);
    }
}

impl PptxConverter {
    /// Converts PPTX bytes to Markdown.
    pub fn convert(&self, src: &SourceContent) -> (r: Result<ConversionResult, MarkItDownError>)
        ensures
            crate::bindings::view_result(r) == spec_pptx(src.bytes@),
    {
        let slides = ordered_slide_names(src.bytes.as_slice());
        if slides.len() == 0 {
            return Err(
                MarkItDownError::decode(
                    String::from_str("pptx"),
                    String::from_str("no slides found"),
                ),
            );
        }
        let ghost sd = slides.deep_view();
        let mut markdown: Vec<char> = Vec::new();
        let mut idx: usize = 0;
        while idx < slides.len()
            invariant
                idx <= slides@.len(),
                sd == slides.deep_view(),
                sd == ordered_slides(src.bytes@),
                slides_markdown(src.bytes@, sd.subrange(0, idx as int)) == Ok::<
                    Seq<char>,
                    ErrorView,
                >(markdown@),
            decreases slides@.len() - idx,
        {
            proof {
                assert(sd.subrange(0, idx + 1).drop_last() =~= sd.subrange(0, idx as int));
                assert(sd.subrange(0, idx + 1).last() == sd[idx as int]);
            }
            let ghost prefix = sd.subrange(0, idx + 1);
            let ghost md0 = markdown@;
            push_str(&mut markdown, "## Slide ");
            let num = decimal((idx as u64) + 1);
            push_all(&mut markdown, num.as_slice());
            markdown.push('\n');
            markdown.push('\n');
            let ghost head = markdown@;
            assert(head =~= md0 + "## Slide "@ + spec_decimal(prefix.len()) + seq!['\n', '\n']);
            proof {
                assert(prefix.drop_last() =~= sd.subrange(0, idx as int));
                assert(prefix.last() == sd[idx as int]);
            }
            match read_zip_entry(src.bytes.as_slice(), slides[idx].as_str()) {
                Some(xml) => {
                    assert(spec_zip_by_name(src.bytes@, prefix.last()) == Some(xml@));
                    match parse_slide(xml.as_slice()) {
                        Ok(text) => {
                            push_all(&mut markdown, text.as_slice());
                            markdown.push('\n');
                            assert(markdown@ =~= head + text@ + seq!['\n']);
                            assert(slides_markdown(src.bytes@, prefix) == Ok::<
                                Seq<char>,
                                ErrorView,
                            >(markdown@));
                        },
                        Err(e) => {
                            proof {
                                assert(slides_markdown(src.bytes@, prefix) == Err::<
                                    Seq<char>,
                                    ErrorView,
                                >(e@));
                                lemma_slides_error_sticks(src.bytes@, sd, idx + 1);
                            }
                            return Err(e);
                        },
                    }
                },
                None => {
                    assert(spec_zip_by_name(src.bytes@, prefix.last()) is None);
                    markdown.push('\n');
                    assert(markdown@ =~= head + seq!['\n']);
                    assert(slides_markdown(src.bytes@, prefix) == Ok::<Seq<char>, ErrorView>(
                        markdown@,
                    ));
                },
            }
            idx += 1;
        }
        assert(sd.subrange(0, sd.len() as int) =~= sd);
        let (a, b) = trim_bounds(markdown.as_slice());
        let md = copy_range(markdown.as_slice(), a, b);
        Ok(ConversionResult::text(string_of(md.as_slice())))
    }
}

} // verus!
