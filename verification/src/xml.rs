use vstd::prelude::*;

use quick_xml::events::Event;

verus! {

/// One event of the forward-only scan of an XML text: an opening tag with its
/// name, a closing tag, or a text node.
#[derive(Debug)]
pub enum XmlEvent {
    Open(String),
    Close,
    Text(String),
}

/// The mathematical value of an `XmlEvent`.
#[verifier::ext_equal]
pub enum XmlEventV {
    Open(Seq<char>),
    Close,
    Text(Seq<char>),
}

impl View for XmlEvent {
    type V = XmlEventV;

    open spec fn view(&self) -> XmlEventV {
        match self {
            XmlEvent::Open(s) => XmlEventV::Open(s@),
            XmlEvent::Close => XmlEventV::Close,
            XmlEvent::Text(s) => XmlEventV::Text(s@),
        }
    }
}

/// The value of a list of events.
pub open spec fn events_view(evs: Seq<XmlEvent>) -> Seq<XmlEventV> {
    evs.map_values(|e: XmlEvent| e@)
}

/// The event stream a well-formed XML text yields under whitespace trimming,
/// or the byte offset at which the text is found ill-formed. The result
/// depends on the text alone.
pub uninterp spec fn xml_scan(s: Seq<char>) -> Result<Seq<XmlEventV>, u64>;

/// Relies on quick_xml::Reader: pulls every event of the document with
/// trimmed text nodes, keeping opening tags, closing tags and text; on
/// ill-formed XML it reports the reader's error position.
#[verifier::external_body]
pub(crate) fn xml_scan_events(text: &str) -> (r: Result<Vec<XmlEvent>, u64>)
    ensures
        (match r {
            Ok(v) => xml_scan(text@) == Ok::<Seq<XmlEventV>, u64>(events_view(v@)),
            Err(p) => xml_scan(text@) == Err::<Seq<XmlEventV>, u64>(p),
        }),
{
    let mut reader = quick_xml::Reader::from_str(text);
    reader.config_mut().trim_text(true);
    let mut evs: Vec<XmlEvent> = Vec::new();
    loop {
        match reader.read_event() {
            Err(_) => return Err(reader.error_position()),
            Ok(Event::Eof) => return Ok(evs),
            Ok(Event::Start(e)) => evs.push(XmlEvent::Open(e.name().into_inner().to_string())),
            Ok(Event::End(_)) => evs.push(XmlEvent::Close),
            Ok(Event::Text(e)) => evs.push(XmlEvent::Text(e.into_inner().into_owned())),
            Ok(_) => {},
        }
    }
}

} // verus!
