//! XML read as a sequence of tokens, and the text that tokens carry.
use vstd::prelude::*;

use crate::bindings::view_option;
use crate::bindings::xml::{
    attribute_view, position_of, spec_xml_attributes, spec_xml_end_name, spec_xml_kind,
    spec_xml_position, spec_xml_read, spec_xml_start_name, spec_xml_text, spec_xml_unescape,
    xml_unescape, EventKind, XmlEvent, XmlReader,
};

verus! {

/// One event of an XML reader, with names and attribute values as raw
/// bytes.
pub enum XmlToken {
    /// A start tag, with its qualified name.
    Start(Vec<u8>),
    /// An end tag, with its qualified name.
    End(Vec<u8>),
    /// An empty-element tag, with its qualified name and attributes
    /// (qualified key, raw value) in document order, each malformed one as
    /// `None`.
    Empty(Vec<u8>, Vec<Option<(Vec<u8>, Vec<u8>)>>),
    /// Character data between tags: its decoded (not yet unescaped) text, or
    /// `None` when it could not be decoded.
    Text(Option<String>),
    /// Any other event (declaration, comment, CDATA, entity reference...).
    Other,
}

/// The plain value of an [`XmlToken`].
pub enum XmlTok {
    Start(Seq<u8>),
    End(Seq<u8>),
    Empty(Seq<u8>, Seq<Option<(Seq<u8>, Seq<u8>)>>),
    Text(Option<Seq<char>>),
    Other,
}

impl View for XmlToken {
    type V = XmlTok;

    open spec fn view(&self) -> XmlTok {
        match self {
            XmlToken::Start(n) => XmlTok::Start(n@),
            XmlToken::End(n) => XmlTok::End(n@),
            XmlToken::Empty(n, attrs) => XmlTok::Empty(
                n@,
                attrs@.map_values(|a: Option<(Vec<u8>, Vec<u8>)>| attribute_view(a)),
            ),
            XmlToken::Text(t) => XmlTok::Text(view_option(*t)),
            XmlToken::Other => XmlTok::Other,
        }
    }
}

/// The tokens of a vector, each by its view.
pub open spec fn tokens_view(v: Seq<XmlToken>) -> Seq<XmlTok> {
    v.map_values(|t: XmlToken| t@)
}

/// A tokenizing result by the views of its tokens or error text.
pub open spec fn tokens_result(r: Result<Vec<XmlToken>, String>) -> Result<Seq<XmlTok>, Seq<char>> {
    match r {
        Ok(v) => Ok(tokens_view(v@)),
        Err(e) => Err(e@),
    }
}

/// The token of the event with the given identity.
pub open spec fn event_token(id: (Seq<u8>, bool, bool, nat)) -> XmlTok {
    match spec_xml_kind(id) {
        EventKind::Start => XmlTok::Start(spec_xml_start_name(id)),
        EventKind::End => XmlTok::End(spec_xml_end_name(id)),
        EventKind::Empty => XmlTok::Empty(spec_xml_start_name(id), spec_xml_attributes(id)),
        EventKind::Text => XmlTok::Text(spec_xml_text(id)),
        EventKind::Other => XmlTok::Other,
    }
}

impl<'a> XmlEvent<'a> {
    /// The token of an event.
    pub fn token(&self) -> (r: XmlToken)
        ensures
            r@ == event_token(self@),
    {
        match self.kind() {
            EventKind::Start => XmlToken::Start(self.start_name()),
            EventKind::End => XmlToken::End(self.end_name()),
            EventKind::Empty => XmlToken::Empty(self.start_name(), self.attributes()),
            EventKind::Text => XmlToken::Text(self.decode_text()),
            EventKind::Other => XmlToken::Other,
        }
    }
}

/// Whether the reader, after `k` events, is within its input and, when the
/// next read yields an event, moves forward without passing the end.
pub open spec fn reads_forward(input: Seq<u8>, from_str: bool, trim: bool, k: nat) -> bool {
    &&& spec_xml_position(input, from_str, trim, k) <= input.len()
    &&& spec_xml_read(input, from_str, trim, k) == Ok::<bool, Seq<char>>(true) ==> spec_xml_position(
        input,
        from_str,
        trim,
        k,
    ) < spec_xml_position(input, from_str, trim, k + 1) <= input.len()
}

/// A token in front of a reading result.
pub open spec fn prepend(tokens: Seq<XmlTok>, r: Result<Seq<XmlTok>, Seq<char>>) -> Result<
    Seq<XmlTok>,
    Seq<char>,
> {
    match r {
        Ok(rest) => Ok(tokens + rest),
        Err(e) => Err(e),
    }
}

/// The tokens of the events from the `k`-th to the end of the document, or
/// the first reading error, reading at most `budget` more events. Every
/// event but the last consumes input, so a budget of one more than the
/// input's length always suffices; running out is reported as an error
/// that is never reached.
pub open spec fn read_from(input: Seq<u8>, from_str: bool, trim: bool, k: nat, budget: nat) -> Result<
    Seq<XmlTok>,
    Seq<char>,
>
    decreases budget,
{
    if budget == 0 {
        Err("the reader did not advance"@)
    } else {
        match spec_xml_read(input, from_str, trim, k) {
            Err(e) => Err(e),
            Ok(false) => Ok(Seq::empty()),
            Ok(true) => prepend(
                seq![event_token((input, from_str, trim, k))],
                read_from(input, from_str, trim, k + 1, (budget - 1) as nat),
            ),
        }
    }
}

/// The tokens of an XML document read from its bytes, up to its end, or the
/// first reading error.
pub open spec fn spec_xml_tokens(xml: Seq<u8>) -> Result<Seq<XmlTok>, Seq<char>> {
    read_from(xml, false, false, 0, xml.len() + 1)
}

/// Reads every event of `xml`, converting each into a token.
pub fn xml_tokens(xml: &[u8]) -> (r: Result<Vec<XmlToken>, String>)
    ensures
        tokens_result(r) == spec_xml_tokens(xml@),
{
    let mut reader = XmlReader::from_bytes(xml);
    let mut tokens: Vec<XmlToken> = Vec::new();
    loop
        invariant
            reader@.input == xml@,
            !reader@.from_str,
            !reader@.trim,
            reader@.events <= position_of(reader@) <= xml@.len(),
            spec_xml_tokens(xml@) == prepend(
                tokens_view(tokens@),
                read_from(xml@, false, false, reader@.events, (xml@.len() + 1 - reader@.events) as nat),
            ),
        decreases xml@.len() - position_of(reader@),
    {
        let ghost k = reader@.events;
        let ghost budget = (xml@.len() + 1 - k) as nat;
        let ghost before = tokens_view(tokens@);
        match reader.read_event() {
            Err(e) => {
                return Err(e);
            },
            Ok(None) => {
                assert(before + Seq::<XmlTok>::empty() =~= before);
                return Ok(tokens);
            },
            Ok(Some(event)) => {
                tokens.push(event.token());
                proof {
                    let t = event_token((xml@, false, false, k));
                    assert(tokens_view(tokens@) =~= before + seq![t]);
                    assert((budget - 1) as nat == (xml@.len() + 1 - (k + 1)) as nat);
                    match read_from(xml@, false, false, k + 1, (budget - 1) as nat) {
                        Ok(rest) => {
                            assert(before + (seq![t] + rest) =~= tokens_view(tokens@) + rest);
                        },
                        Err(_) => {},
                    }
                }
            },
        }
    }
}

/// The text of a character-data token: empty when it could not be decoded,
/// otherwise its entities expanded, or the text as it is when expanding
/// fails.
pub open spec fn spec_decode_xml_text(raw: Option<Seq<char>>) -> Seq<char> {
    match raw {
        Some(t) => match spec_xml_unescape(t) {
            Some(u) => u,
            None => t,
        },
        None => Seq::empty(),
    }
}

/// Decodes the text of a character-data token and expands its XML entities.
pub fn decode_xml_text(raw: Option<&str>) -> (r: String)
    ensures
        r@ == spec_decode_xml_text(view_option(raw)),
{
    match raw {
        Some(t) => match xml_unescape(t) {
            Some(u) => u,
            None => String::from_str(t),
        },
        None => String::new(),
    }
}

/// The bytes of an ASCII tag name.
pub open spec fn spec_tag(name: Seq<char>) -> Seq<u8> {
    name.map_values(|c: char| c as u8)
}

/// Whether a (local) name is the given ASCII tag name.
pub fn is_tag(name: &[u8], tag: &str) -> (r: bool)
    ensures
        r == (name@ == spec_tag(tag@)),
{
    let t = crate::text::chars_of(tag);
    if name.len() != t.len() {
        assert(spec_tag(tag@).len() == t@.len());
        return false;
    }
    let mut k: usize = 0;
    while k < name.len()
        invariant
            k <= name@.len() == t@.len(),
            t@ == tag@,
            forall|j: int| 0 <= j < k ==> name@[j] == spec_tag(tag@)[j],
        decreases name@.len() - k,
    {
        if name[k] != t[k] as u8 {
            assert(spec_tag(tag@)[k as int] == t@[k as int] as u8);
            return false;
        }
        k += 1;
    }
    assert(name@ =~= spec_tag(tag@));
    true
}

/// The text that a run of tokens holds: the unescaped text of its
/// character data, in order.
pub open spec fn tokens_text(tokens: Seq<XmlTok>) -> Seq<char>
    decreases tokens.len(),
{
    if tokens.len() == 0 {
        Seq::empty()
    } else {
        tokens_text(tokens.drop_last()) + match tokens.last() {
            XmlTok::Text(raw) => spec_decode_xml_text(raw),
            _ => Seq::empty(),
        }
    }
}

/// The tag names that the Office converters tell apart are distinct.
pub proof fn lemma_office_tags_distinct()
    ensures
        spec_tag("p"@) != spec_tag("tc"@),
        spec_tag("p"@) != spec_tag("tr"@),
        spec_tag("p"@) != spec_tag("tbl"@),
        spec_tag("p"@) != spec_tag("numPr"@),
        spec_tag("p"@) != spec_tag("pStyle"@),
        spec_tag("tc"@) != spec_tag("tr"@),
        spec_tag("tc"@) != spec_tag("tbl"@),
        spec_tag("tc"@) != spec_tag("numPr"@),
        spec_tag("tc"@) != spec_tag("pStyle"@),
        spec_tag("tr"@) != spec_tag("tbl"@),
        spec_tag("tr"@) != spec_tag("numPr"@),
        spec_tag("tr"@) != spec_tag("pStyle"@),
        spec_tag("tbl"@) != spec_tag("numPr"@),
        spec_tag("tbl"@) != spec_tag("pStyle"@),
        spec_tag("numPr"@) != spec_tag("pStyle"@),
{
    reveal_strlit("p");
    reveal_strlit("tc");
    reveal_strlit("tr");
    reveal_strlit("tbl");
    reveal_strlit("numPr");
    reveal_strlit("pStyle");
    assert(spec_tag("p"@).len() != spec_tag("tc"@).len());
    assert(spec_tag("p"@).len() != spec_tag("tr"@).len());
    assert(spec_tag("p"@).len() != spec_tag("tbl"@).len());
    assert(spec_tag("p"@).len() != spec_tag("numPr"@).len());
    assert(spec_tag("p"@).len() != spec_tag("pStyle"@).len());
    assert(spec_tag("tc"@)[1] != spec_tag("tr"@)[1]);
    assert(spec_tag("tc"@).len() != spec_tag("tbl"@).len());
    assert(spec_tag("tc"@).len() != spec_tag("numPr"@).len());
    assert(spec_tag("tc"@).len() != spec_tag("pStyle"@).len());
    assert(spec_tag("tr"@).len() != spec_tag("tbl"@).len());
    assert(spec_tag("tr"@).len() != spec_tag("numPr"@).len());
    assert(spec_tag("tr"@).len() != spec_tag("pStyle"@).len());
    assert(spec_tag("tbl"@).len() != spec_tag("numPr"@).len());
    assert(spec_tag("tbl"@).len() != spec_tag("pStyle"@).len());
    assert(spec_tag("numPr"@).len() != spec_tag("pStyle"@).len());
}

} // verus!
