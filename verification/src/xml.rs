//! XML documents as lists of events.

use vstd::prelude::*;
use vstd::utf8::{decode_utf8, valid_utf8};

verus! {

/// One event of an XML document.
#[derive(Debug)]
pub enum XmlEvent {
    /// A start tag, with its raw name.
    Start(Vec<u8>),
    /// Character data, absent where it is not text.
    Text(Option<String>),
    /// The raw bytes of a CDATA section.
    CData(Vec<u8>),
    /// An end tag, with its raw name.
    End(Vec<u8>),
    /// The end of the document.
    Eof,
    /// The document is ill formed.
    Broken,
    /// Anything else.
    Other,
}

/// An event with its names and texts as sequences.
pub enum XmlItem {
    Start(Seq<u8>),
    Text(Option<Seq<char>>),
    CData(Seq<u8>),
    End(Seq<u8>),
    Eof,
    Broken,
    Other,
}

impl View for XmlEvent {
    type V = XmlItem;

    open spec fn view(&self) -> XmlItem {
        match self {
            XmlEvent::Start(name) => XmlItem::Start(name@),
            XmlEvent::Text(Some(text)) => XmlItem::Text(Some(text@)),
            XmlEvent::Text(None) => XmlItem::Text(None),
            XmlEvent::CData(bytes) => XmlItem::CData(bytes@),
            XmlEvent::End(name) => XmlItem::End(name@),
            XmlEvent::Eof => XmlItem::Eof,
            XmlEvent::Broken => XmlItem::Broken,
            XmlEvent::Other => XmlItem::Other,
        }
    }
}

/// The events that a vector holds.
pub open spec fn items(v: Seq<XmlEvent>) -> Seq<XmlItem> {
    v.map_values(|e: XmlEvent| e@)
}

/// `quick_xml::Reader`, which reads a document event by event.
#[verifier::external_type_specification]
#[verifier::external_body]
#[verifier::reject_recursive_types(R)]
pub struct ExReader<R>(quick_xml::Reader<R>);

/// The events that a reader still has to give, up to and with the first end of the document or
/// error.
pub uninterp spec fn pending(reader: quick_xml::Reader<&[u8]>) -> Seq<XmlItem>;

/// The events of a document whose character data is trimmed, up to and with the first end of the
/// document or error.
pub uninterp spec fn xml_events(document: Seq<u8>) -> Seq<XmlItem>;

/// `quick_xml::Reader::from_reader` with trimmed character data: a reader that has all events of
/// the document before it, of which there is at least the end or an error.
#[verifier::external_body]
fn open_reader(document: &[u8]) -> (r: quick_xml::Reader<&[u8]>)
    ensures
        pending(r) == xml_events(document@),
        pending(r).len() > 0,
{
    let mut reader = quick_xml::Reader::from_reader(document);
    reader.config_mut().trim_text(true);
    reader
}

/// `quick_xml::Reader::read_event_into` gives the next event. The last of the pending events is the
/// end of the document or an error, and no other is; behind any other event the remaining ones are
/// pending. What a reader gives behind the end or an error is left open.
#[verifier::external_body]
fn next_event(reader: &mut quick_xml::Reader<&[u8]>) -> (r: XmlEvent)
    requires
        pending(*old(reader)).len() > 0,
    ensures
        r@ == pending(*old(reader))[0],
        (r is Eof || r is Broken) <==> pending(*old(reader)).len() == 1,
        !(r is Eof || r is Broken) ==> pending(*final(reader)) == pending(*old(reader)).skip(1),
{
    let mut buffer = Vec::new();
    match reader.read_event_into(&mut buffer) {
        Ok(quick_xml::events::Event::Start(e)) => XmlEvent::Start(e.name().as_ref().to_vec()),
        Ok(quick_xml::events::Event::Text(e)) => XmlEvent::Text(e.decode().ok().map(|t| t.into_owned())),
        Ok(quick_xml::events::Event::CData(e)) => XmlEvent::CData(e.as_ref().to_vec()),
        Ok(quick_xml::events::Event::End(e)) => XmlEvent::End(e.name().as_ref().to_vec()),
        Ok(quick_xml::events::Event::Eof) => XmlEvent::Eof,
        Ok(_) => XmlEvent::Other,
        Err(_) => XmlEvent::Broken,
    }
}

/// Reads the events of a document, up to and with the first end of the document or error.
pub fn read_xml(document: &[u8]) -> (r: Vec<XmlEvent>)
    ensures
        items(r@) == xml_events(document@),
{
    let mut reader = open_reader(document);
    let mut r: Vec<XmlEvent> = Vec::new();
    assert(items(r@) + pending(reader) =~= xml_events(document@));
    loop
        invariant
            items(r@) + pending(reader) == xml_events(document@),
            pending(reader).len() > 0,
        decreases pending(reader).len(),
    {
        let ghost before = pending(reader);
        let ghost had = items(r@);
        let event = next_event(&mut reader);
        let last = match event {
            XmlEvent::Eof => true,
            XmlEvent::Broken => true,
            _ => false,
        };
        r.push(event);
        assert(items(r@) =~= had.push(before[0]));
        assert(had.push(before[0]) + before.skip(1) =~= had + before);
        if last {
            assert(had + before =~= items(r@));
            return r;
        }
    }
}

/// `std::str::from_utf8` gives the text of valid UTF-8, and nothing for anything else.
#[verifier::external_body]
pub(crate) fn utf8_text(bytes: &[u8]) -> (r: Option<String>)
    ensures
        match r {
            Some(text) => valid_utf8(bytes@) && text@ == decode_utf8(bytes@),
            None => !valid_utf8(bytes@),
        },
{
    std::str::from_utf8(bytes).ok().map(|text| text.to_string())
}

/// The text that bytes make when what is not valid UTF-8 is replaced.
pub uninterp spec fn lossy_utf8(bytes: Seq<u8>) -> Seq<char>;

/// `String::from_utf8_lossy` gives the text of the bytes, in which only invalid sequences are
/// replaced.
#[verifier::external_body]
pub(crate) fn lossy_text(bytes: &[u8]) -> (r: String)
    ensures
        r@ == lossy_utf8(bytes@),
        valid_utf8(bytes@) ==> r@ == decode_utf8(bytes@),
{
    String::from_utf8_lossy(bytes).into_owned()
}

} // verus!
