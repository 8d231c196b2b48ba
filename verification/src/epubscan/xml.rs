//! XML events as the EPUB readers see them, produced by `quick_xml`.
use vstd::prelude::*;
use crate::formatter::opt_string_view;
use quick_xml::events::attributes::Attribute;
use quick_xml::events::BytesStart;
use quick_xml::events::Event::{Empty, End, Eof, Start, Text};
use quick_xml::name::QName;
use quick_xml::{Reader, XmlVersion};

verus! {

/// One event of the XML pull parser, with what the readers need of it.
#[derive(Debug)]
pub enum XmlEvent {
    /// An opening tag: its local name and the raw text of its attributes.
    Start(String, String),
    /// A self-closing tag: its local name and the raw text of its attributes.
    Empty(String, String),
    /// A closing tag: its local name.
    End(String),
    /// Character data between tags, with XML 1.0 line endings normalised.
    Text(String),
    /// Anything else (declarations, comments, CDATA, entity references, ...).
    Other,
    /// A syntax error reported by the parser.
    Error,
}

/// The mathematical value of an [`XmlEvent`].
pub enum XmlEventView {
    Start(Seq<char>, Seq<char>),
    Empty(Seq<char>, Seq<char>),
    End(Seq<char>),
    Text(Seq<char>),
    Other,
    Error,
}

impl View for XmlEvent {
    type V = XmlEventView;

    open spec fn view(&self) -> XmlEventView {
        match self {
            XmlEvent::Start(n, a) => XmlEventView::Start(n@, a@),
            XmlEvent::Empty(n, a) => XmlEventView::Empty(n@, a@),
            XmlEvent::End(n) => XmlEventView::End(n@),
            XmlEvent::Text(t) => XmlEventView::Text(t@),
            XmlEvent::Other => XmlEventView::Other,
            XmlEvent::Error => XmlEventView::Error,
        }
    }
}

/// The views of a sequence of events.
pub open spec fn events_view(events: Seq<XmlEvent>) -> Seq<XmlEventView> {
    events.map_values(|e: XmlEvent| e@)
}

/// The views of a list of attribute pairs.
pub open spec fn pairs_view(pairs: Seq<(String, String)>) -> Seq<(Seq<char>, Seq<char>)> {
    pairs.map_values(|p: (String, String)| (p.0@, p.1@))
}

/// The events `quick_xml` reports for `xml`, in order, up to the end of input.
pub uninterp spec fn xml_tokens(xml: Seq<char>, check_end_names: bool) -> Seq<XmlEventView>;

/// The attributes `quick_xml` finds in the raw attribute text of a tag, as
/// (qualified key, raw value) pairs, leaving out the ones it cannot parse.
pub uninterp spec fn xml_attribute_pairs(raw: Seq<char>) -> Seq<(Seq<char>, Seq<char>)>;

/// The value of an attribute after entity expansion and XML 1.0 normalisation, or
/// `None` where an escape sequence cannot be expanded.
pub uninterp spec fn xml_attribute_value(raw: Seq<char>) -> Option<Seq<char>>;

/// Whether an attribute value holds none of `&`, tab, CR and LF.
pub open spec fn needs_no_normalization(raw: Seq<char>) -> bool {
    forall|i: int| 0 <= i < raw.len() ==> raw[i] != '&' && raw[i] != '\t' && raw[i] != '\r' && raw[i] != '\n'
}

/// Runs `quick_xml::Reader` (built by `Reader::from_str`, with the given
/// `check_end_names` setting) over `xml` and records every event that
/// `read_event` returns before `Eof`.  The contract only names the result: the
/// sequence of events is whatever the parser produces for this input.
#[verifier::external_body]
pub(crate) fn xml_events(xml: &str, check_end_names: bool) -> (events: Vec<XmlEvent>)
    ensures
        events_view(events@) == xml_tokens(xml@, check_end_names),
{
    let mut reader = Reader::from_str(xml);
    reader.config_mut().check_end_names = check_end_names;
    let mut events = Vec::new();
    loop {
        let Ok(event) = reader.read_event() else { events.push(XmlEvent::Error); continue };
        events.push(match event {
            Start(e) => XmlEvent::Start(e.local_name().as_ref().into(), e.attributes_raw().into()),
            Empty(e) => XmlEvent::Empty(e.local_name().as_ref().into(), e.attributes_raw().into()),
            End(e) => XmlEvent::End(e.local_name().as_ref().into()),
            Text(t) => XmlEvent::Text(t.xml10_content().into()),
            Eof => return events,
            _ => XmlEvent::Other,
        });
    }
}

/// Parses raw attribute text with `BytesStart::attributes` of `quick_xml` and
/// keeps every attribute it yields without error, as (key, raw value).  The
/// contract only names the result.
#[verifier::external_body]
pub(crate) fn xml_attributes(raw: &str) -> (pairs: Vec<(String, String)>)
    ensures
        pairs_view(pairs@) == xml_attribute_pairs(raw@),
{
    BytesStart::from_content(raw, 0).attributes().flatten()
        .map(|a| (a.key.as_ref().to_string(), a.value.into_owned()))
        .collect()
}

/// `Attribute::normalized_value` of `quick_xml` with XML 1.0 rules: expands
/// entity and character references and turns tab, CR and LF into spaces.  The
/// contract names the result and states what the source shows for a value with
/// none of `&`, tab, CR and LF: it comes back unchanged.
#[verifier::external_body]
pub(crate) fn xml_unescape_attribute(raw: &str) -> (value: Option<String>)
    ensures
        opt_string_view(value) == xml_attribute_value(raw@),
        needs_no_normalization(raw@) ==> opt_string_view(value) == Some(raw@),
{
    let attr = Attribute { key: QName(""), value: raw.into() };
    attr.normalized_value(XmlVersion::Implicit1_0).ok().map(|v| v.into_owned())
}

} // verus!
