//! XML documents as sequences of events.

use vstd::prelude::*;
use xml::reader::XmlEvent;
use crate::text::same_text;

verus! {

/// One attribute of an element: its local name and its value.
#[derive(Debug)]
pub struct Attr {
    pub name: String,
    pub value: String,
}

/// What a parser meets while it walks through a document.
#[derive(Debug)]
pub enum Event {
    /// The document begins.
    StartDocument,
    /// An element opens.
    Start { name: String, attributes: Vec<Attr> },
    /// An element closes.
    End { name: String },
    /// Text between tags.
    Characters(String),
    /// A comment, a processing instruction, a CDATA section or white space.
    Other,
    /// The document has ended.
    EndDocument,
    /// The document is not well-formed from here on.
    Failed(String),
}

/// An attribute as plain values.
pub struct AttrView {
    pub name: Seq<char>,
    pub value: Seq<char>,
}

/// An event as plain values.
pub enum EventView {
    StartDocument,
    Start { name: Seq<char>, attributes: Seq<AttrView> },
    End { name: Seq<char> },
    Characters(Seq<char>),
    Other,
    EndDocument,
    Failed(Seq<char>),
}

impl View for Attr {
    type V = AttrView;

    open spec fn view(&self) -> AttrView {
        AttrView { name: self.name@, value: self.value@ }
    }
}

/// The attributes of a list as plain values.
pub open spec fn attr_views(attributes: Seq<Attr>) -> Seq<AttrView> {
    attributes.map_values(|a: Attr| a@)
}

impl View for Event {
    type V = EventView;

    open spec fn view(&self) -> EventView {
        match self {
            Event::StartDocument => EventView::StartDocument,
            Event::Start { name, attributes } => EventView::Start {
                name: name@,
                attributes: attr_views(attributes@),
            },
            Event::End { name } => EventView::End { name: name@ },
            Event::Characters(text) => EventView::Characters(text@),
            Event::Other => EventView::Other,
            Event::EndDocument => EventView::EndDocument,
            Event::Failed(message) => EventView::Failed(message@),
        }
    }
}

/// The events of a list as plain values.
pub open spec fn event_views(events: Seq<Event>) -> Seq<EventView> {
    events.map_values(|e: Event| e@)
}

/// A reader of xml-rs over a text held in memory.
#[verifier::external_body]
pub struct Reader<'a> {
    inner: xml::reader::EventReader<&'a [u8]>,
}

/// The events that a reader has still to give, the last of them being the
/// end of the document or the failure at which it stops.
pub uninterp spec fn pending(reader: Reader) -> Seq<EventView>;

/// The events of the document with the given text.
pub uninterp spec fn events_of(text: Seq<char>) -> Seq<EventView>;

/// The event ends a document: nothing but this event follows it.
pub open spec fn is_last(event: EventView) -> bool {
    event is EndDocument || event is Failed
}

/// The events end with the only one of them that ends a document.
pub open spec fn is_document(events: Seq<EventView>) -> bool {
    &&& events.len() > 0
    &&& is_last(events.last())
    &&& forall|i: int| 0 <= i < events.len() - 1 ==> !is_last(#[trigger] events[i])
}

/// Opens a reader on `text` with `EventReader::from_str` of xml-rs. The
/// events it will give depend on the text alone and end with the end of
/// the document or with the first failure.
#[verifier::external_body]
fn open_reader<'a>(text: &'a str) -> (reader: Reader<'a>)
    ensures
        pending(reader) == events_of(text@),
        is_document(pending(reader)),
{
    Reader { inner: xml::reader::EventReader::from_str(text) }
}

/// Takes the next event from a reader with `EventReader::next` of xml-rs,
/// keeping of names and attributes the local name and the value. Once the
/// reader has given the event that ends the document, it gives such an
/// event again.
#[verifier::external_body]
fn next_event(reader: &mut Reader) -> (event: Event)
    ensures
        pending(*old(reader)).len() > 0 ==> event@ == pending(*old(reader))[0] && pending(
            *final(reader),
        ) == pending(*old(reader)).drop_first(),
        pending(*old(reader)).len() == 0 ==> is_last(event@) && pending(*final(reader)).len() == 0,
{
    match reader.inner.next() {
        Ok(XmlEvent::StartDocument { .. }) => Event::StartDocument,
        Ok(XmlEvent::StartElement { name, attributes, .. }) => Event::Start {
            name: name.local_name,
            attributes: attributes.into_iter().map(|a| Attr { name: a.name.local_name, value: a.value }).collect(),
        },
        Ok(XmlEvent::EndElement { name }) => Event::End { name: name.local_name },
        Ok(XmlEvent::Characters(text)) => Event::Characters(text),
        Ok(XmlEvent::EndDocument) => Event::EndDocument,
        Ok(_) => Event::Other,
        Err(e) => Event::Failed(e.to_string()),
    }
}

/// Whether the event ends a document.
pub fn ends_document(event: &Event) -> (last: bool)
    ensures
        last == is_last(event@),
{
    match event {
        Event::EndDocument => true,
        Event::Failed(_) => true,
        _ => false,
    }
}

/// The events of the document with the given text, up to and with the
/// end of the document or the first failure.
pub fn xml_events(text: &str) -> (events: Vec<Event>)
    ensures
        event_views(events@) == events_of(text@),
        is_document(event_views(events@)),
{
    let mut reader = open_reader(text);
    let mut events: Vec<Event> = Vec::new();
    let ghost all = events_of(text@);
    loop
        invariant_except_break
            event_views(events@) + pending(reader) == all,
            pending(reader).len() > 0,
        invariant
            all == events_of(text@),
            is_document(all),
        ensures
            event_views(events@) == all,
        decreases pending(reader).len(),
    {
        let ghost before = event_views(events@);
        let ghost rest = pending(reader);
        let event = next_event(&mut reader);
        let last = ends_document(&event);
        events.push(event);
        proof {
            assert(event_views(events@) =~= before.push(rest[0]));
            assert(before.push(rest[0]) + rest.drop_first() =~= before + rest);
            assert(all[before.len() as int] == rest[0]);
            if last {
                assert(rest.len() == 1);
                assert(event_views(events@) =~= all);
            } else {
                assert(rest.len() > 1);
            }
        }
        if last {
            break ;
        }
    }
    events
}

/// Why a document could not be read.
#[derive(Debug)]
pub enum ReadError {
    /// The document is not well-formed; the parser's words are kept.
    Syntax(String),
    /// An element that has to say which file or folder it is about has no
    /// `Include` attribute.
    NoInclude,
    /// A definition does not say of which kind it is.
    NoKind,
    /// A section is of a kind that is not known.
    UnknownKind(String),
    /// Something stands where only text or the end of an element may.
    Unexpected,
    /// The document ends inside an element.
    Ended,
}

/// An error as plain values.
pub enum ReadErrorView {
    Syntax(Seq<char>),
    NoInclude,
    NoKind,
    UnknownKind(Seq<char>),
    Unexpected,
    Ended,
}

impl View for ReadError {
    type V = ReadErrorView;

    open spec fn view(&self) -> ReadErrorView {
        match self {
            ReadError::Syntax(m) => ReadErrorView::Syntax(m@),
            ReadError::NoInclude => ReadErrorView::NoInclude,
            ReadError::NoKind => ReadErrorView::NoKind,
            ReadError::UnknownKind(k) => ReadErrorView::UnknownKind(k@),
            ReadError::Unexpected => ReadErrorView::Unexpected,
            ReadError::Ended => ReadErrorView::Ended,
        }
    }
}

/// The index of the first attribute with the given name, or the number of
/// attributes where there is none.
pub open spec fn first_attr(attributes: Seq<AttrView>, name: Seq<char>) -> int
    decreases attributes.len(),
{
    if attributes.len() == 0 {
        0
    } else {
        let before = first_attr(attributes.drop_last(), name);
        if before < attributes.len() - 1 {
            before
        } else if attributes.last().name == name {
            attributes.len() - 1
        } else {
            attributes.len() as int
        }
    }
}

/// `first_attr` is the least index of an attribute with the name.
pub proof fn lemma_first_attr(attributes: Seq<AttrView>, name: Seq<char>)
    ensures
        0 <= first_attr(attributes, name) <= attributes.len(),
        first_attr(attributes, name) < attributes.len() ==> attributes[first_attr(
            attributes,
            name,
        )].name == name,
        forall|i: int| 0 <= i < first_attr(attributes, name) ==> attributes[i].name != name,
    decreases attributes.len(),
{
    if attributes.len() > 0 {
        let init = attributes.drop_last();
        lemma_first_attr(init, name);
        assert forall|i: int| 0 <= i < first_attr(attributes, name) implies attributes[i].name
            != name by {
            if i < init.len() {
                assert(init[i] == attributes[i]);
            }
        }
        if first_attr(init, name) < init.len() {
            assert(init[first_attr(init, name)] == attributes[first_attr(init, name)]);
        }
    }
}

/// The value of the first attribute with the given name.
pub open spec fn value_of(attributes: Seq<AttrView>, name: Seq<char>) -> Option<Seq<char>> {
    let at = first_attr(attributes, name);
    if at < attributes.len() {
        Some(attributes[at].value)
    } else {
        None
    }
}

/// Looks up the value of the first attribute with the given name.
pub fn read_xml_attribute(attributes: &Vec<Attr>, key: &str) -> (value: Option<String>)
    ensures
        match value {
            Some(v) => value_of(attr_views(attributes@), key@) == Some(v@),
            None => value_of(attr_views(attributes@), key@) is None,
        },
{
    let mut i: usize = 0;
    while i < attributes.len()
        invariant
            0 <= i <= attributes@.len(),
            forall|j: int| 0 <= j < i ==> attr_views(attributes@)[j].name != key@,
        decreases attributes@.len() - i,
    {
        if same_text(attributes[i].name.as_str(), key) {
            proof {
                lemma_first_attr(attr_views(attributes@), key@);
                assert(attr_views(attributes@)[i as int].name == key@);
            }
            return Some(attributes[i].value.clone());
        }
        i += 1;
    }
    proof {
        lemma_first_attr(attr_views(attributes@), key@);
    }
    None
}

} // verus!
