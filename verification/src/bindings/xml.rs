//! Trusted items over `quick_xml`: a reader that yields one event per
//! call, a writer that indents the events written to it, and entity
//! expansion.
use quick_xml::events::Event;
use vstd::prelude::*;

use super::view_option;

verus! {

/// `quick_xml::reader::Reader` is held by [`XmlReader`] without being looked
/// into.
#[verifier::external_type_specification]
#[verifier::external_body]
#[verifier::reject_recursive_types(R)]
pub struct ExXmlReader<R>(quick_xml::reader::Reader<R>);

/// `quick_xml::writer::Writer` is held by [`XmlWriter`] without being
/// looked into.
#[verifier::external_type_specification]
#[verifier::external_body]
#[verifier::reject_recursive_types(W)]
pub struct ExXmlWriter<W>(quick_xml::writer::Writer<W>);

/// `quick_xml::events::Event` is carried from the reader to the writer
/// without being looked into.
#[verifier::external_type_specification]
#[verifier::external_body]
pub struct ExXmlEvent<'a>(quick_xml::events::Event<'a>);

/// What identifies a reader's state: the input, whether it was made from a
/// `str` (UTF-8 fixed) rather than from bytes, whether text is trimmed, and
/// how many events have been read.
pub struct ReaderState {
    pub input: Seq<u8>,
    pub from_str: bool,
    pub trim: bool,
    pub events: nat,
}

/// What the `k`-th call of `Reader::read_event` yields on a reader in the
/// given configuration: `true` for an event, `false` for the end of the
/// document, or the text of the error.
pub uninterp spec fn spec_xml_read(input: Seq<u8>, from_str: bool, trim: bool, k: nat) -> Result<
    bool,
    Seq<char>,
>;

/// What `Reader::buffer_position` returns after `k` events have been read:
/// how many input bytes the reader has consumed.
pub uninterp spec fn spec_xml_position(input: Seq<u8>, from_str: bool, trim: bool, k: nat) -> nat;

/// The kind of the event with the given identity.
pub uninterp spec fn spec_xml_kind(id: (Seq<u8>, bool, bool, nat)) -> EventKind;

/// What `BytesStart::name` returns for the start or empty-element tag with
/// the given identity.
pub uninterp spec fn spec_xml_start_name(id: (Seq<u8>, bool, bool, nat)) -> Seq<u8>;

/// What `BytesEnd::name` returns for the end tag with the given identity.
pub uninterp spec fn spec_xml_end_name(id: (Seq<u8>, bool, bool, nat)) -> Seq<u8>;

/// What `BytesStart::attributes` yields for the empty-element tag with the
/// given identity: each attribute as (key, raw value), or `None` when
/// malformed.
pub uninterp spec fn spec_xml_attributes(id: (Seq<u8>, bool, bool, nat)) -> Seq<
    Option<(Seq<u8>, Seq<u8>)>,
>;

/// What `BytesText::decode` returns for the character data with the given
/// identity, or `None` when it fails.
pub uninterp spec fn spec_xml_text(id: (Seq<u8>, bool, bool, nat)) -> Option<Seq<char>>;

/// Whether writing the event with the given identity, after the events with
/// the identities in `written`, succeeds (`Writer::write_event`).
pub uninterp spec fn spec_xml_write_ok(
    written: Seq<(Seq<u8>, bool, bool, nat)>,
    event: (Seq<u8>, bool, bool, nat),
) -> bool;

/// The bytes a writer indenting by two spaces holds after the events with
/// the given identities were written to it (`Writer::into_inner`).
pub uninterp spec fn spec_xml_written(written: Seq<(Seq<u8>, bool, bool, nat)>) -> Seq<u8>;

/// A `quick_xml` reader over a byte slice, viewed as its state.
pub struct XmlReader<'a> {
    reader: quick_xml::reader::Reader<&'a [u8]>,
    state: Ghost<ReaderState>,
}

impl<'a> View for XmlReader<'a> {
    type V = ReaderState;

    closed spec fn view(&self) -> ReaderState {
        self.state@
    }
}

/// An event read from a reader. Its view is its identity.
pub struct XmlEvent<'a> {
    raw: quick_xml::events::Event<'a>,
    id: Ghost<(Seq<u8>, bool, bool, nat)>,
}

impl<'a> View for XmlEvent<'a> {
    type V = (Seq<u8>, bool, bool, nat);

    closed spec fn view(&self) -> (Seq<u8>, bool, bool, nat) {
        self.id@
    }
}

/// The kinds of event the engine tells apart.
#[derive(Debug, Clone, Copy, PartialEq, Eq, Structural)]
pub enum EventKind {
    Start,
    End,
    Empty,
    Text,
    Other,
}

/// A read result: `true` for an event, `false` for the end of the
/// document, or the error's text.
pub open spec fn read_result(r: Result<Option<XmlEvent>, String>) -> Result<bool, Seq<char>> {
    match r {
        Ok(Some(_)) => Ok(true),
        Ok(None) => Ok(false),
        Err(e) => Err(e@),
    }
}

/// The position the reader has reached.
pub open spec fn position_of(s: ReaderState) -> nat {
    spec_xml_position(s.input, s.from_str, s.trim, s.events)
}

impl<'a> XmlReader<'a> {
    /// Calls `Reader::from_reader` on the bytes (default configuration:
    /// text is not trimmed). Claims that no byte is consumed yet.
    #[verifier::external_body]
    pub(crate) fn from_bytes(input: &'a [u8]) -> (r: XmlReader<'a>)
        ensures
            r@ == (ReaderState { input: input@, from_str: false, trim: false, events: 0 }),
            spec_xml_position(r@.input, false, false, 0) <= r@.input.len(),
    {
        XmlReader {
            reader: quick_xml::reader::Reader::from_reader(input),
            state: Ghost(ReaderState { input: input@, from_str: false, trim: false, events: 0 }),
        }
    }

    /// Calls `Reader::from_str` (UTF-8, text not trimmed). Claims that no
    /// byte is consumed yet.
    #[verifier::external_body]
    pub(crate) fn from_text(input: &'a str) -> (r: XmlReader<'a>)
        ensures
            r@ == (ReaderState { input: vstd::utf8::encode_utf8(input@), from_str: true, trim: false, events: 0 }),
            spec_xml_position(r@.input, true, false, 0) <= r@.input.len(),
    {
        XmlReader {
            reader: quick_xml::reader::Reader::from_str(input),
            state: Ghost(ReaderState { input: vstd::utf8::encode_utf8(input@), from_str: true, trim: false, events: 0 }),
        }
    }

    /// Calls `Config::trim_text(true)` through `Reader::config_mut` before
    /// any event is read.
    #[verifier::external_body]
    pub(crate) fn trim_text(&mut self)
        requires
            old(self)@.events == 0,
        ensures
            final(self)@ == (ReaderState { trim: true, ..old(self)@ }),
            spec_xml_position(final(self)@.input, final(self)@.from_str, true, 0)
                <= final(self)@.input.len(),
    {
        self.reader.config_mut().trim_text(true);
        self.state = Ghost(ReaderState { trim: true, ..self.state@ });
    }

    /// Calls `Reader::read_event`. Claims that the outcome is a function of
    /// the reader's state, named `spec_xml_read`, and, as the crate's source
    /// shows, that the reader never moves past the end of its input and that
    /// every event but the end of the document consumes input.
    #[verifier::external_body]
    pub(crate) fn read_event(&mut self) -> (r: Result<Option<XmlEvent<'a>>, String>)
        ensures
            read_result(r) == spec_xml_read(
                old(self)@.input,
                old(self)@.from_str,
                old(self)@.trim,
                old(self)@.events,
            ),
            final(self)@ == (ReaderState { events: old(self)@.events + 1, ..old(self)@ }),
            r matches Ok(Some(e)) ==> e@ == (
                old(self)@.input,
                old(self)@.from_str,
                old(self)@.trim,
                old(self)@.events,
            ),
            spec_xml_position(
                final(self)@.input,
                final(self)@.from_str,
                final(self)@.trim,
                final(self)@.events,
            ) <= final(self)@.input.len(),
            r matches Ok(Some(_)) ==> spec_xml_position(
                old(self)@.input,
                old(self)@.from_str,
                old(self)@.trim,
                old(self)@.events,
            ) < spec_xml_position(
                final(self)@.input,
                final(self)@.from_str,
                final(self)@.trim,
                final(self)@.events,
            ),
    {
        let s = self.state@;
        self.state = Ghost(ReaderState { events: s.events + 1, ..s });
        match self.reader.read_event() {
            Ok(Event::Eof) => Ok(None),
            Ok(raw) => Ok(Some(XmlEvent { raw, id: Ghost((s.input, s.from_str, s.trim, s.events)) })),
            Err(e) => Err(e.to_string()),
        }
    }
}

impl<'a> XmlEvent<'a> {
    /// Tells the variants of `quick_xml::events::Event` apart: start, end,
    /// empty-element tag, character data, anything else.
    #[verifier::external_body]
    pub(crate) fn kind(&self) -> (r: EventKind)
        ensures
            r == spec_xml_kind(self@),
    {
        match self.raw {
            Event::Start(_) => EventKind::Start,
            Event::End(_) => EventKind::End,
            Event::Empty(_) => EventKind::Empty,
            Event::Text(_) => EventKind::Text,
            _ => EventKind::Other,
        }
    }

    /// Calls `BytesStart::name` on a start or empty-element tag.
    #[verifier::external_body]
    pub(crate) fn start_name(&self) -> (r: Vec<u8>)
        requires
            spec_xml_kind(self@) == EventKind::Start || spec_xml_kind(self@) == EventKind::Empty,
        ensures
            r@ == spec_xml_start_name(self@),
    {
        match &self.raw {
            Event::Start(e) | Event::Empty(e) => e.name().as_ref().to_vec(),
            _ => Vec::new(),
        }
    }

    /// Calls `BytesEnd::name` on an end tag.
    #[verifier::external_body]
    pub(crate) fn end_name(&self) -> (r: Vec<u8>)
        requires
            spec_xml_kind(self@) == EventKind::End,
        ensures
            r@ == spec_xml_end_name(self@),
    {
        match &self.raw {
            Event::End(e) => e.name().as_ref().to_vec(),
            _ => Vec::new(),
        }
    }

    /// Calls `BytesStart::attributes` on an empty-element tag, converting
    /// each attribute to (key, raw value) and each malformed one to `None`.
    #[verifier::external_body]
    pub(crate) fn attributes(&self) -> (r: Vec<Option<(Vec<u8>, Vec<u8>)>>)
        requires
            spec_xml_kind(self@) == EventKind::Empty,
        ensures
            r@.map_values(|a: Option<(Vec<u8>, Vec<u8>)>| attribute_view(a)) == spec_xml_attributes(self@),
    {
        match &self.raw {
            Event::Empty(e) => e.attributes().map(|a| a.ok().map(|a| (a.key.as_ref().to_vec(), a.value.to_vec()))).collect(),
            _ => Vec::new(),
        }
    }

    /// Calls `BytesText::decode` on character data; `None` when it fails.
    #[verifier::external_body]
    pub(crate) fn decode_text(&self) -> (r: Option<String>)
        requires
            spec_xml_kind(self@) == EventKind::Text,
        ensures
            view_option(r) == spec_xml_text(self@),
    {
        match &self.raw {
            Event::Text(t) => t.decode().ok().map(|c| c.into_owned()),
            _ => None,
        }
    }
}

/// An attribute by its view.
pub open spec fn attribute_view(a: Option<(Vec<u8>, Vec<u8>)>) -> Option<(Seq<u8>, Seq<u8>)> {
    match a {
        Some((k, v)) => Some((k@, v@)),
        None => None,
    }
}

/// A `quick_xml` writer into a byte vector, viewed as the identities of the
/// events written to it.
pub struct XmlWriter {
    writer: quick_xml::writer::Writer<Vec<u8>>,
    written: Ghost<Seq<(Seq<u8>, bool, bool, nat)>>,
}

impl View for XmlWriter {
    type V = Seq<(Seq<u8>, bool, bool, nat)>;

    closed spec fn view(&self) -> Seq<(Seq<u8>, bool, bool, nat)> {
        self.written@
    }
}

impl XmlWriter {
    /// Calls `Writer::new_with_indent` over an empty vector, indenting by
    /// two spaces.
    #[verifier::external_body]
    pub(crate) fn indented() -> (r: XmlWriter)
        ensures
            r@ == Seq::<(Seq<u8>, bool, bool, nat)>::empty(),
    {
        XmlWriter {
            writer: quick_xml::writer::Writer::new_with_indent(Vec::new(), b' ', 2),
            written: Ghost(Seq::empty()),
        }
    }

    /// Calls `Writer::write_event`. Claims that whether it succeeds is a
    /// function of the events written before and of this one, named
    /// `spec_xml_write_ok`.
    #[verifier::external_body]
    pub(crate) fn write_event(&mut self, event: XmlEvent) -> (r: bool)
        ensures
            r == spec_xml_write_ok(old(self)@, event@),
            final(self)@ == old(self)@.push(event@),
    {
        self.written = Ghost(self.written@.push(event.id@));
        self.writer.write_event(event.raw).is_ok()
    }

    /// Calls `Writer::into_inner`. Claims that the bytes are a function of
    /// the events written, named `spec_xml_written`.
    #[verifier::external_body]
    pub(crate) fn into_bytes(self) -> (r: Vec<u8>)
        ensures
            r@ == spec_xml_written(self@),
    {
        self.writer.into_inner()
    }
}

/// What `quick_xml::escape::unescape` returns: the text with its XML
/// entities expanded, or `None` when it holds a malformed or unknown one.
pub uninterp spec fn spec_xml_unescape(raw: Seq<char>) -> Option<Seq<char>>;

/// Calls `quick_xml::escape::unescape`. Claims only that the outcome is a
/// function of the text, named `spec_xml_unescape`.
#[verifier::external_body]
pub(crate) fn xml_unescape(raw: &str) -> (r: Option<String>)
    ensures
        view_option(r) == spec_xml_unescape(raw@),
{
    quick_xml::escape::unescape(raw).ok().map(|u| u.into_owned())
}

} // verus!
