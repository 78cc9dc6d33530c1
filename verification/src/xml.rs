use quick_xml::events::attributes::Attributes;
use quick_xml::events::BytesText;
use quick_xml::events::Event;
use quick_xml::Reader;
use vstd::prelude::*;

verus! {

/// The pull reader of quick-xml. Nothing inside it is visible here: the
/// events it has yet to give are spoken of through `pending_events`.
#[verifier::external_type_specification]
#[verifier::external_body]
#[verifier::reject_recursive_types(R)]
pub struct ExReader<R>(Reader<R>);

/// One attribute of a start tag, as written: its key and its value, the
/// value without its quotes and not unescaped.
#[derive(Clone, Debug, PartialEq, Eq)]
pub struct Attribute {
    pub key: Vec<u8>,
    pub value: Vec<u8>,
}

/// An attribute, as contracts speak of it.
pub struct AttributeModel {
    pub key: Seq<u8>,
    pub value: Seq<u8>,
}

impl View for Attribute {
    type V = AttributeModel;

    open spec fn view(&self) -> AttributeModel {
        AttributeModel { key: self.key@, value: self.value@ }
    }
}

/// What the reader gives at one step, in plain values.
#[derive(Clone, Debug, PartialEq, Eq)]
pub enum XmlEvent {
    /// A start tag `<name ...>`: its name, and what follows the name inside
    /// the tag, as written.
    Start { name: Vec<u8>, attributes: Vec<u8> },
    /// An empty-element tag `<name .../>`: its name, and what follows the
    /// name inside the tag, as written, without the closing `/`.
    Empty { name: Vec<u8>, attributes: Vec<u8> },
    /// An end tag `</name>`.
    End { name: Vec<u8> },
    /// Character data between tags, still escaped.
    Text { raw: String },
    /// The end of the document.
    Eof,
    /// The document is not well formed here; the reader's own words.
    Failed { message: String },
    /// Anything else: a comment, a declaration, a processing instruction,
    /// a CDATA section, a doctype.
    Other,
}

/// An event, as contracts speak of it.
pub enum EventModel {
    Start { name: Seq<u8>, attributes: Seq<u8> },
    Empty { name: Seq<u8>, attributes: Seq<u8> },
    End { name: Seq<u8> },
    Text { raw: Seq<char> },
    Eof,
    Failed { message: Seq<char> },
    Other,
}

/// The model of an entry of an attribute list.
pub open spec fn attribute_model(a: Option<Attribute>) -> Option<AttributeModel> {
    match a {
        Some(a) => Some(a@),
        None => None,
    }
}

impl View for XmlEvent {
    type V = EventModel;

    open spec fn view(&self) -> EventModel {
        match self {
            XmlEvent::Start { name, attributes } => EventModel::Start {
                name: name@,
                attributes: attributes@,
            },
            XmlEvent::Empty { name, attributes } => EventModel::Empty {
                name: name@,
                attributes: attributes@,
            },
            XmlEvent::End { name } => EventModel::End { name: name@ },
            XmlEvent::Text { raw } => EventModel::Text { raw: raw@ },
            XmlEvent::Eof => EventModel::Eof,
            XmlEvent::Failed { message } => EventModel::Failed { message: message@ },
            XmlEvent::Other => EventModel::Other,
        }
    }
}

/// The models of the entries of an attribute list.
pub open spec fn attribute_models(attributes: Seq<Option<Attribute>>) -> Seq<Option<AttributeModel>> {
    attributes.map_values(|a: Option<Attribute>| attribute_model(a))
}

/// The models of a run of events.
pub open spec fn event_models(events: Seq<XmlEvent>) -> Seq<EventModel> {
    events.map_values(|e: XmlEvent| e@)
}

/// Whether the reader stops at `e`: the end of the document, or a failure.
pub open spec fn is_last_event(e: EventModel) -> bool {
    e is Eof || e is Failed
}

/// A run of events that ends at the first event at which the reader stops.
pub open spec fn ends_at_first_stop(events: Seq<EventModel>) -> bool {
    &&& events.len() > 0
    &&& is_last_event(events.last())
    &&& forall|i: int| 0 <= i < events.len() - 1 ==> !is_last_event(#[trigger] events[i])
}

/// The events that a reader over the document `doc`, set to trim the white
/// space around character data, gives one after another, up to and
/// including the first `Eof` or `Failed`.
pub uninterp spec fn document_events(doc: Seq<char>) -> Seq<EventModel>;

/// The events that `reader` has yet to give, up to and including the first
/// `Eof` or `Failed`; nothing once it has given that one.
pub uninterp spec fn pending_events(reader: Reader<&[u8]>) -> Seq<EventModel>;

/// The attributes that quick-xml reads out of `raw`, which is what follows
/// the name inside a tag: one entry for each attribute in the order written,
/// `None` for one that is not well formed or whose key came before.
pub uninterp spec fn attribute_list(raw: Seq<u8>) -> Seq<Option<AttributeModel>>;

/// What quick-xml's unescaping makes of the character data `raw`: the text
/// with the references of XML resolved, or the words of its refusal.
pub uninterp spec fn unescaped(raw: Seq<char>) -> Result<Seq<char>, Seq<char>>;

/// `Reader::from_str` of quick-xml, followed by `trim_text(true)`: a reader at
/// the start of `xml`. What it will give is named by `document_events`; the
/// run of events is finite, since every event but `Eof` takes at least one
/// byte of the document, and it ends at its first `Eof` or failure.
#[verifier::external_body]
pub(crate) fn open_reader<'a>(xml: &'a str) -> (reader: Reader<&'a [u8]>)
    ensures
        pending_events(reader) == document_events(xml@),
        ends_at_first_stop(pending_events(reader)),
{
    let mut reader = Reader::from_str(xml);
    reader.trim_text(true);
    reader
}

/// `Reader::read_event_into` of quick-xml, with the event handed out in plain
/// values. It gives the first of the pending events and leaves the others
/// pending. After an `Eof` or a failure the reader gives `Eof` for ever.
/// Start tags, empty-element tags, end tags, character data, the end and a
/// failure each come as what they are; the last arm takes the comments,
/// CDATA sections, declarations, processing instructions and doctypes, of
/// which nothing is kept.
#[verifier::external_body]
pub(crate) fn next_event(reader: &mut Reader<&[u8]>) -> (event: XmlEvent)
    ensures
        pending_events(*old(reader)).len() > 0 ==> event@ == pending_events(*old(reader))[0]
            && pending_events(*final(reader)) == pending_events(*old(reader)).skip(1),
        pending_events(*old(reader)).len() == 0 ==> event@ == EventModel::Eof && pending_events(
            *final(reader),
        ).len() == 0,
{
    match reader.read_event_into(&mut Vec::new()) {
        Ok(Event::Start(e)) => XmlEvent::Start {
            name: e.name().0.to_vec(),
            attributes: e.attributes_raw().to_vec(),
        },
        Ok(Event::Empty(e)) => XmlEvent::Empty {
            name: e.name().0.to_vec(),
            attributes: e.attributes_raw().to_vec(),
        },
        Ok(Event::End(e)) => XmlEvent::End { name: e.name().0.to_vec() },
        Ok(Event::Text(e)) => XmlEvent::Text { raw: String::from_utf8_lossy(&e).into_owned() },
        Ok(Event::Eof) => XmlEvent::Eof,
        Ok(_) => XmlEvent::Other,
        Err(e) => XmlEvent::Failed { message: e.to_string() },
    }
}

/// The attribute iterator of quick-xml (`Attributes::new`, then `next` to
/// the end) over what follows the name inside a tag. The list it gives is
/// named by `attribute_list`; an attribute that it refuses stands in the
/// list as `None`.
#[verifier::external_body]
pub(crate) fn attributes_of(raw: &[u8]) -> (list: Vec<Option<Attribute>>)
    ensures
        attribute_models(list@) == attribute_list(raw@),
{
    let text = String::from_utf8_lossy(raw);
    Attributes::new(&text, 0).map(|a| a.ok().map(|a| Attribute {
        key: a.key.0.to_vec(),
        value: a.value.to_vec(),
    })).collect()
}

/// `BytesText::unescape` of quick-xml on the character data `raw`. The
/// result is named by `unescaped`; a refusal comes as the error's own words.
#[verifier::external_body]
pub(crate) fn unescape_text(raw: &str) -> (out: Result<String, String>)
    ensures
        match out {
            Ok(text) => unescaped(raw@) == Ok::<Seq<char>, Seq<char>>(text@),
            Err(message) => unescaped(raw@) == Err::<Seq<char>, Seq<char>>(message@),
        },
{
    match BytesText::from_escaped(raw).unescape() {
        Ok(text) => Ok(text.into_owned()),
        Err(e) => Err(e.to_string()),
    }
}

/// Reads every event of the document `xml`, up to and including the first
/// `Eof` or `Failed`.
pub fn read_events(xml: &str) -> (events: Vec<XmlEvent>)
    ensures
        event_models(events@) == document_events(xml@),
{
    let mut reader = open_reader(xml);
    let mut events: Vec<XmlEvent> = Vec::new();
    let ghost all = document_events(xml@);
    let mut done = false;
    assert(all.skip(0) == all);
    while !done
        invariant
            events@.len() <= all.len(),
            event_models(events@) == all.take(events@.len() as int),
            !done ==> pending_events(reader) == all.skip(events@.len() as int),
            !done ==> ends_at_first_stop(pending_events(reader)),
            done ==> events@.len() == all.len(),
        decreases all.len() - events@.len() + if done { 0int } else { 1int },
    {
        let ghost before = events@;
        let ghost pending = pending_events(reader);
        let event = next_event(&mut reader);
        assert(event@ == all[before.len() as int]);
        done = match event {
            XmlEvent::Eof => true,
            XmlEvent::Failed { .. } => true,
            _ => false,
        };
        events.push(event);
        assert(event_models(events@) =~= all.take(events@.len() as int));
        proof {
            if done {
                assert(is_last_event(pending[0]));
                assert(pending.len() == 1);
            } else {
                assert(!is_last_event(pending[0]));
                let rest = pending.skip(1);
                assert(rest == all.skip(events@.len() as int));
                assert(rest.last() == pending.last());
                assert forall|i: int| 0 <= i < rest.len() - 1 implies !is_last_event(
                    #[trigger] rest[i],
                ) by {
                    assert(rest[i] == pending[i + 1]);
                }
            }
        }
    }
    assert(all.take(all.len() as int) == all);
    events
}

} // verus!
