use crate::html_escape::{decode_chars, decode_spec};
use crate::text::{append_chars, chars_of, string_of, trim, trim_spec};
use crate::xml::{
    attribute_list, attribute_models, attributes_of, document_events, event_models, read_events,
    unescape_text, unescaped, Attribute, AttributeModel, EventModel, XmlEvent,
};
use vstd::prelude::*;
use vstd::string::*;

verus! {

/// The two kinds of cue element. A `text` element gives its times in seconds,
/// in the attributes `start` and `dur`; a `p` element gives them in
/// milliseconds, in the attributes `t` and `d`.
#[derive(Clone, Copy, PartialEq, Eq, Structural, Debug)]
pub enum Dialect {
    Text,
    Paragraph,
}

/// The unit in which a time was written.
#[derive(Clone, Copy, PartialEq, Eq, Structural, Debug)]
pub enum TimeUnit {
    Seconds,
    Milliseconds,
}

/// A time as the document gives it: the bytes of the attribute's value, or
/// `None` where the element has no such attribute, and the unit they are in.
/// A caller reads the bytes as a number; where they are absent or spell no
/// number, the time is zero.
#[derive(Clone, Debug, PartialEq, Eq)]
pub struct TimeValue {
    pub raw: Option<Vec<u8>>,
    pub unit: TimeUnit,
}

/// A time, as contracts speak of it.
pub struct TimeModel {
    pub raw: Option<Seq<u8>>,
    pub unit: TimeUnit,
}

impl View for TimeValue {
    type V = TimeModel;

    open spec fn view(&self) -> TimeModel {
        TimeModel {
            raw: match self.raw {
                Some(bytes) => Some(bytes@),
                None => None,
            },
            unit: self.unit,
        }
    }
}

/// One caption cue: its text, decoded and trimmed, and its two times.
#[derive(Clone, Debug, PartialEq, Eq)]
pub struct TranscriptItem {
    pub text: String,
    pub start: TimeValue,
    pub duration: TimeValue,
}

/// A cue, as contracts speak of it.
pub struct ItemModel {
    pub text: Seq<char>,
    pub start: TimeModel,
    pub duration: TimeModel,
}

impl View for TranscriptItem {
    type V = ItemModel;

    open spec fn view(&self) -> ItemModel {
        ItemModel { text: self.text@, start: self.start@, duration: self.duration@ }
    }
}

/// The models of a run of cues.
pub open spec fn item_models(items: Seq<TranscriptItem>) -> Seq<ItemModel> {
    items.map_values(|i: TranscriptItem| i@)
}

/// The model of what the parser returns.
pub open spec fn outcome_model(r: Result<Vec<TranscriptItem>, String>) -> Result<
    Seq<ItemModel>,
    Seq<char>,
> {
    match r {
        Ok(items) => Ok(item_models(items@)),
        Err(message) => Err(message@),
    }
}

/// The name of the element of each kind: `text` and `p`.
pub open spec fn element_name(dialect: Dialect) -> Seq<u8> {
    match dialect {
        Dialect::Text => seq!['t' as u8, 'e' as u8, 'x' as u8, 't' as u8],
        Dialect::Paragraph => seq!['p' as u8],
    }
}

/// The kind of cue element that a start tag called `name` opens, if any.
pub open spec fn dialect_of(name: Seq<u8>) -> Option<Dialect> {
    if name == element_name(Dialect::Text) {
        Some(Dialect::Text)
    } else if name == element_name(Dialect::Paragraph) {
        Some(Dialect::Paragraph)
    } else {
        None
    }
}

/// The key of the attribute that holds the start time: `start` and `t`.
pub open spec fn start_key(dialect: Dialect) -> Seq<u8> {
    match dialect {
        Dialect::Text => seq!['s' as u8, 't' as u8, 'a' as u8, 'r' as u8, 't' as u8],
        Dialect::Paragraph => seq!['t' as u8],
    }
}

/// The key of the attribute that holds the duration: `dur` and `d`.
pub open spec fn duration_key(dialect: Dialect) -> Seq<u8> {
    match dialect {
        Dialect::Text => seq!['d' as u8, 'u' as u8, 'r' as u8],
        Dialect::Paragraph => seq!['d' as u8],
    }
}

/// The unit in which an element of kind `dialect` gives its times.
pub open spec fn unit_of(dialect: Dialect) -> TimeUnit {
    match dialect {
        Dialect::Text => TimeUnit::Seconds,
        Dialect::Paragraph => TimeUnit::Milliseconds,
    }
}

/// Whether a tag called `name` inside a `p` element marks a break: `s` and
/// `br` do, written as a start tag or as an empty-element tag.
pub open spec fn is_break(name: Seq<u8>) -> bool {
    name == seq!['s' as u8] || name == seq!['b' as u8, 'r' as u8]
}

/// The value of the first well-formed attribute of `attributes` whose key is
/// `key`.
pub open spec fn attribute_value(attributes: Seq<Option<AttributeModel>>, key: Seq<u8>) -> Option<
    Seq<u8>,
>
    decreases attributes.len(),
{
    if attributes.len() == 0 {
        None
    } else {
        match attributes[0] {
            Some(a) if a.key == key => Some(a.value),
            _ => attribute_value(attributes.skip(1), key),
        }
    }
}

/// The text gathered so far, after a nested tag called `name` was met
/// inside the element, be it a start tag or an empty-element tag: in a `p`
/// element a break adds one space, unless the text ends in a space already.
pub open spec fn after_start_tag(text: Seq<char>, dialect: Dialect, name: Seq<u8>) -> Seq<char> {
    if dialect == Dialect::Paragraph && is_break(name) && !(text.len() > 0 && text.last() == ' ') {
        text.push(' ')
    } else {
        text
    }
}

/// What is said where the document ends inside an element.
pub open spec fn eof_message(dialect: Dialect) -> Seq<char> {
    match dialect {
        Dialect::Text => "Unexpected EOF in text element"@,
        Dialect::Paragraph => "Unexpected EOF in p element"@,
    }
}

/// What is said where the reader fails, with the reader's words.
pub open spec fn xml_error_message(detail: Seq<char>) -> Seq<char> {
    "XML parse error: "@ + detail
}

/// What is said where character data cannot be unescaped.
pub open spec fn unescape_error_message(detail: Seq<char>) -> Seq<char> {
    "Failed to unescape: "@ + detail
}

/// How the reading of one cue element ends.
pub enum ElementOutcome {
    /// Its end tag was found: the text gathered, and the index of the event
    /// after the end tag.
    Closed { text: Seq<char>, next: int },
    /// The document ended or failed inside the element.
    Broken { message: Seq<char> },
}

/// Reads the inside of a cue element of kind `dialect` from the event at
/// `pos` on, with `text` gathered so far. Character data is unescaped, then
/// its entities are decoded, and the result is added to the text. The
/// element ends at the first end tag that bears its name.
pub open spec fn element_outcome(
    events: Seq<EventModel>,
    pos: int,
    dialect: Dialect,
    text: Seq<char>,
) -> ElementOutcome
    decreases events.len() - pos,
{
    if pos < 0 || pos >= events.len() {
        ElementOutcome::Broken { message: eof_message(dialect) }
    } else {
        match events[pos] {
            EventModel::Text { raw } => match unescaped(raw) {
                Ok(plain) => element_outcome(events, pos + 1, dialect, text + decode_spec(plain)),
                Err(detail) => ElementOutcome::Broken { message: unescape_error_message(detail) },
            },
            EventModel::Start { name, attributes } => element_outcome(
                events,
                pos + 1,
                dialect,
                after_start_tag(text, dialect, name),
            ),
            EventModel::Empty { name, attributes } => element_outcome(
                events,
                pos + 1,
                dialect,
                after_start_tag(text, dialect, name),
            ),
            EventModel::End { name } => if name == element_name(dialect) {
                ElementOutcome::Closed { text, next: pos + 1 }
            } else {
                element_outcome(events, pos + 1, dialect, text)
            },
            EventModel::Eof => ElementOutcome::Broken { message: eof_message(dialect) },
            EventModel::Failed { message } => ElementOutcome::Broken {
                message: xml_error_message(message),
            },
            EventModel::Other => element_outcome(events, pos + 1, dialect, text),
        }
    }
}

/// The cue that an element gives: none where its text is empty once
/// trimmed, else one item with the trimmed text and the two times.
pub open spec fn cue_of(
    dialect: Dialect,
    attributes: Seq<Option<AttributeModel>>,
    text: Seq<char>,
) -> Option<ItemModel> {
    if trim_spec(text).len() == 0 {
        None
    } else {
        Some(
            ItemModel {
                text: trim_spec(text),
                start: TimeModel {
                    raw: attribute_value(attributes, start_key(dialect)),
                    unit: unit_of(dialect),
                },
                duration: TimeModel {
                    raw: attribute_value(attributes, duration_key(dialect)),
                    unit: unit_of(dialect),
                },
            },
        )
    }
}

/// What the cue element that starts before the event at `pos` gives: its
/// cue, if it has one, and the index of the event after its end tag; or the
/// failure inside it.
pub open spec fn element_result(
    events: Seq<EventModel>,
    pos: int,
    dialect: Dialect,
    attributes: Seq<Option<AttributeModel>>,
) -> Result<(Option<ItemModel>, int), Seq<char>> {
    match element_outcome(events, pos, dialect, Seq::empty()) {
        ElementOutcome::Closed { text, next } => Ok((cue_of(dialect, attributes, text), next)),
        ElementOutcome::Broken { message } => Err(message),
    }
}

/// `items` with `cue` in front, where there is one; an error stays.
pub open spec fn with_cue(cue: Option<ItemModel>, items: Result<Seq<ItemModel>, Seq<char>>) -> Result<
    Seq<ItemModel>,
    Seq<char>,
> {
    match items {
        Ok(rest) => match cue {
            Some(item) => Ok(seq![item] + rest),
            None => Ok(rest),
        },
        Err(message) => Err(message),
    }
}

/// What is said where the document ends with an element still open.
pub open spec fn unclosed_message() -> Seq<char> {
    "XML parse error: the document ends inside an element"@
}

/// What the end of the document gives, with `open` elements still open: an
/// empty rest of the transcript where none is, else a failure.
pub open spec fn at_end(open: nat) -> Result<Seq<ItemModel>, Seq<char>> {
    if open == 0 {
        Ok(Seq::empty())
    } else {
        Err(unclosed_message())
    }
}

/// The transcript that the events from `pos` on give, with `open` elements
/// other than cues open around them. Each `text` or `p` start tag opens a
/// cue element, which is read to its end tag. The start tag of any other
/// element opens one more, its end tag closes one. What else stands between
/// cue elements is passed over. The items come in the order of the
/// document. The first failure, inside an element or between elements, is
/// the result; so is the end of the document while an element is open.
pub open spec fn items_from(events: Seq<EventModel>, pos: int, open: nat) -> Result<
    Seq<ItemModel>,
    Seq<char>,
>
    decreases events.len() - pos,
    via items_from_decreases
{
    if pos < 0 || pos >= events.len() {
        at_end(open)
    } else {
        match events[pos] {
            EventModel::Start { name, attributes } => match dialect_of(name) {
                Some(dialect) => match element_result(
                    events,
                    pos + 1,
                    dialect,
                    attribute_list(attributes),
                ) {
                    Ok((cue, next)) => with_cue(cue, items_from(events, next, open)),
                    Err(message) => Err(message),
                },
                None => items_from(events, pos + 1, open + 1),
            },
            EventModel::End { name } => if dialect_of(name) is None && open > 0 {
                items_from(events, pos + 1, (open - 1) as nat)
            } else {
                items_from(events, pos + 1, open)
            },
            EventModel::Eof => at_end(open),
            EventModel::Failed { message } => Err(xml_error_message(message)),
            _ => items_from(events, pos + 1, open),
        }
    }
}

#[via_fn]
proof fn items_from_decreases(events: Seq<EventModel>, pos: int, open: nat) {
    if 0 <= pos < events.len() {
        match events[pos] {
            EventModel::Start { name, attributes } => match dialect_of(name) {
                Some(dialect) => {
                    lemma_element_ends_later(events, pos + 1, dialect, Seq::empty());
                },
                None => {},
            },
            _ => {},
        }
    }
}

/// An element that is closed ends after the place where its reading began,
/// and within the events.
pub proof fn lemma_element_ends_later(
    events: Seq<EventModel>,
    pos: int,
    dialect: Dialect,
    text: Seq<char>,
)
    requires
        0 <= pos,
    ensures
        element_outcome(events, pos, dialect, text) matches ElementOutcome::Closed { next, .. }
            ==> pos < next <= events.len(),
    decreases events.len() - pos,
{
    if pos < events.len() {
        match events[pos] {
            EventModel::Text { raw } => match unescaped(raw) {
                Ok(plain) => {
                    lemma_element_ends_later(events, pos + 1, dialect, text + decode_spec(plain));
                },
                Err(detail) => {},
            },
            EventModel::Start { name, attributes } => {
                lemma_element_ends_later(
                    events,
                    pos + 1,
                    dialect,
                    after_start_tag(text, dialect, name),
                );
            },
            EventModel::Empty { name, attributes } => {
                lemma_element_ends_later(
                    events,
                    pos + 1,
                    dialect,
                    after_start_tag(text, dialect, name),
                );
            },
            EventModel::End { name } => {
                if name != element_name(dialect) {
                    lemma_element_ends_later(events, pos + 1, dialect, text);
                }
            },
            EventModel::Other => {
                lemma_element_ends_later(events, pos + 1, dialect, text);
            },
            _ => {},
        }
    }
}


/// `items` after `front`; an error stays.
pub open spec fn after_items(front: Seq<ItemModel>, items: Result<Seq<ItemModel>, Seq<char>>) -> Result<
    Seq<ItemModel>,
    Seq<char>,
> {
    match items {
        Ok(rest) => Ok(front + rest),
        Err(message) => Err(message),
    }
}

/// The model of a cue that may be missing.
pub open spec fn cue_model(item: Option<TranscriptItem>) -> Option<ItemModel> {
    match item {
        Some(i) => Some(i@),
        None => None,
    }
}

/// The model of what the reading of one element returns.
pub open spec fn element_model(r: Result<(Option<TranscriptItem>, usize), String>) -> Result<
    (Option<ItemModel>, int),
    Seq<char>,
> {
    match r {
        Ok((item, next)) => Ok((cue_model(item), next as int)),
        Err(message) => Err(message@),
    }
}

fn bytes_eq(a: &[u8], b: &[u8]) -> (same: bool)
    ensures
        same == (a@ == b@),
{
    if a.len() != b.len() {
        return false;
    }
    let mut i: usize = 0;
    while i < a.len()
        invariant
            i <= a.len(),
            a.len() == b.len(),
            forall|j: int| 0 <= j < i ==> a@[j] == b@[j],
        decreases a.len() - i,
    {
        if a[i] != b[i] {
            return false;
        }
        i += 1;
    }
    assert(a@ =~= b@);
    true
}

fn name_of(dialect: Dialect) -> (name: Vec<u8>)
    ensures
        name@ == element_name(dialect),
{
    match dialect {
        Dialect::Text => vec!['t' as u8, 'e' as u8, 'x' as u8, 't' as u8],
        Dialect::Paragraph => vec!['p' as u8],
    }
}

fn start_key_of(dialect: Dialect) -> (key: Vec<u8>)
    ensures
        key@ == start_key(dialect),
{
    match dialect {
        Dialect::Text => vec!['s' as u8, 't' as u8, 'a' as u8, 'r' as u8, 't' as u8],
        Dialect::Paragraph => vec!['t' as u8],
    }
}

fn duration_key_of(dialect: Dialect) -> (key: Vec<u8>)
    ensures
        key@ == duration_key(dialect),
{
    match dialect {
        Dialect::Text => vec!['d' as u8, 'u' as u8, 'r' as u8],
        Dialect::Paragraph => vec!['d' as u8],
    }
}

fn unit_for(dialect: Dialect) -> (unit: TimeUnit)
    ensures
        unit == unit_of(dialect),
{
    match dialect {
        Dialect::Text => TimeUnit::Seconds,
        Dialect::Paragraph => TimeUnit::Milliseconds,
    }
}

fn dialect_for(name: &[u8]) -> (dialect: Option<Dialect>)
    ensures
        dialect == dialect_of(name@),
{
    if bytes_eq(name, name_of(Dialect::Text).as_slice()) {
        Some(Dialect::Text)
    } else if bytes_eq(name, name_of(Dialect::Paragraph).as_slice()) {
        Some(Dialect::Paragraph)
    } else {
        None
    }
}

fn marks_break(name: &[u8]) -> (b: bool)
    ensures
        b == is_break(name@),
{
    let s: Vec<u8> = vec!['s' as u8];
    let br: Vec<u8> = vec!['b' as u8, 'r' as u8];
    assert(s@ =~= seq!['s' as u8]);
    assert(br@ =~= seq!['b' as u8, 'r' as u8]);
    bytes_eq(name, s.as_slice()) || bytes_eq(name, br.as_slice())
}

/// The value of the first well-formed attribute of `attributes` whose key is
/// `key`, where there is one.
pub fn find_attribute(attributes: &Vec<Option<Attribute>>, key: &[u8]) -> (value: Option<Vec<u8>>)
    ensures
        match value {
            Some(bytes) => attribute_value(attribute_models(attributes@), key@) == Some(bytes@),
            None => attribute_value(attribute_models(attributes@), key@) is None,
        },
{
    let ghost all = attribute_models(attributes@);
    let mut i: usize = 0;
    assert(all.skip(0) == all);
    while i < attributes.len()
        invariant
            i <= attributes.len(),
            all == attribute_models(attributes@),
            attribute_value(all, key@) == attribute_value(all.skip(i as int), key@),
        decreases attributes.len() - i,
    {
        assert(all.skip(i as int)[0] == crate::xml::attribute_model(attributes@[i as int]));
        assert(all.skip(i as int).skip(1) == all.skip(i as int + 1));
        match &attributes[i] {
            Some(a) => {
                if bytes_eq(a.key.as_slice(), key) {
                    return Some(vstd::slice::slice_to_vec(a.value.as_slice()));
                }
            },
            None => {},
        }
        i += 1;
    }
    None
}

fn message_with(prefix: &str, detail: &str) -> (message: String)
    ensures
        message@ == prefix@ + detail@,
{
    let mut message = String::from_str(prefix);
    message.append(detail);
    message
}

/// Takes note of a nested tag called `name`: in a `p` element a break adds
/// one space to the text, unless it ends in one.
fn add_break(text: &mut Vec<char>, dialect: Dialect, name: &[u8])
    ensures
        final(text)@ == after_start_tag(old(text)@, dialect, name@),
{
    let ends_in_space = text.len() > 0 && text[text.len() - 1] == ' ';
    let is_paragraph = match dialect {
        Dialect::Paragraph => true,
        Dialect::Text => false,
    };
    if is_paragraph && marks_break(name) && !ends_in_space {
        text.push(' ');
    }
}

/// Reads the inside of a cue element from the event at `pos` on: the text
/// gathered and the index after its end tag, or the failure.
fn read_element(events: &[XmlEvent], pos: usize, dialect: Dialect) -> (r: Result<
    (Vec<char>, usize),
    String,
>)
    requires
        pos <= events.len(),
    ensures
        match r {
            Ok((text, next)) => pos < next <= events.len() && element_outcome(
                event_models(events@),
                pos as int,
                dialect,
                Seq::empty(),
            ) == (ElementOutcome::Closed { text: text@, next: next as int }),
            Err(message) => element_outcome(
                event_models(events@),
                pos as int,
                dialect,
                Seq::empty(),
            ) == (ElementOutcome::Broken { message: message@ }),
        },
{
    let ghost models = event_models(events@);
    let mut text: Vec<char> = Vec::new();
    let mut i: usize = pos;
    while i < events.len()
        invariant
            pos <= i <= events.len(),
            models == event_models(events@),
            element_outcome(models, pos as int, dialect, Seq::empty()) == element_outcome(
                models,
                i as int,
                dialect,
                text@,
            ),
        decreases events.len() - i,
    {
        assert(models[i as int] == events@[i as int]@);
        match &events[i] {
            XmlEvent::Text { raw } => {
                match unescape_text(raw.as_str()) {
                    Ok(plain) => {
                        let chars = chars_of(plain.as_str());
                        let decoded = decode_chars(chars.as_slice());
                        append_chars(&mut text, decoded.as_slice());
                    },
                    Err(detail) => {
                        return Err(message_with("Failed to unescape: ", detail.as_str()));
                    },
                }
            },
            XmlEvent::Start { name, attributes } => {
                add_break(&mut text, dialect, name.as_slice());
            },
            XmlEvent::Empty { name, attributes } => {
                add_break(&mut text, dialect, name.as_slice());
            },
            XmlEvent::End { name } => {
                if bytes_eq(name.as_slice(), name_of(dialect).as_slice()) {
                    return Ok((text, i + 1));
                }
            },
            XmlEvent::Eof => {
                return Err(eof_message_of(dialect));
            },
            XmlEvent::Failed { message } => {
                return Err(message_with("XML parse error: ", message.as_str()));
            },
            XmlEvent::Other => {},
        }
        i += 1;
    }
    Err(eof_message_of(dialect))
}

fn eof_message_of(dialect: Dialect) -> (message: String)
    ensures
        message@ == eof_message(dialect),
{
    match dialect {
        Dialect::Text => String::from_str("Unexpected EOF in text element"),
        Dialect::Paragraph => String::from_str("Unexpected EOF in p element"),
    }
}

/// Reads one cue element of kind `dialect` whose start tag bore
/// `attributes` behind its name, from the event at `pos` on.
fn parse_element(
    events: &[XmlEvent],
    pos: usize,
    attributes: &[u8],
    dialect: Dialect,
) -> (r: Result<(Option<TranscriptItem>, usize), String>)
    requires
        pos <= events.len(),
    ensures
        element_model(r) == element_result(
            event_models(events@),
            pos as int,
            dialect,
            attribute_list(attributes@),
        ),
        r matches Ok((_, next)) ==> pos < next <= events.len(),
{
    let list = attributes_of(attributes);
    let start = find_attribute(&list, start_key_of(dialect).as_slice());
    let duration = find_attribute(&list, duration_key_of(dialect).as_slice());
    match read_element(events, pos, dialect) {
        Err(message) => Err(message),
        Ok((text, next)) => {
            let trimmed = trim(text.as_slice());
            if trimmed.len() == 0 {
                Ok((None, next))
            } else {
                let item = TranscriptItem {
                    text: string_of(trimmed.as_slice()),
                    start: TimeValue { raw: start, unit: unit_for(dialect) },
                    duration: TimeValue { raw: duration, unit: unit_for(dialect) },
                };
                Ok((Some(item), next))
            }
        },
    }
}

/// Parses caption documents: the cue elements `text` and `p`, in one pass.
pub struct TranscriptParser {
    _preserve_formatting: bool,
}

impl TranscriptParser {
    /// Whether the parser was made to preserve formatting.
    pub closed spec fn preserve_formatting(&self) -> bool {
        self._preserve_formatting
    }

    /// A parser. The flag is kept and changes nothing in what is parsed.
    pub fn new(preserve_formatting: bool) -> (parser: Self)
        ensures
            parser.preserve_formatting() == preserve_formatting,
    {
        Self { _preserve_formatting: preserve_formatting }
    }

    /// Parses the caption document `xml`: its cues in the order of the
    /// document, or the first failure. A document that ends while any
    /// element is open, a cue or another, is a failure.
    pub fn parse(&self, xml: &str) -> (r: Result<Vec<TranscriptItem>, String>)
        ensures
            outcome_model(r) == items_from(document_events(xml@), 0, 0),
    {
        let events = read_events(xml);
        self.parse_events(events.as_slice())
    }

    /// Parses the caption document `xml` as `parse` does; a failure comes as
    /// `XmlParseError` with the words of the failure.
    pub fn parse_captions(&self, xml: &str) -> (r: Result<
        Vec<TranscriptItem>,
        crate::error::TranscriptError,
    >)
        ensures
            match items_from(document_events(xml@), 0, 0) {
                Ok(items) => r matches Ok(found) && item_models(found@) == items,
                Err(message) => r matches Err(crate::error::TranscriptError::XmlParseError(m))
                    && m@ == message,
            },
    {
        match self.parse(xml) {
            Ok(items) => Ok(items),
            Err(message) => Err(crate::error::TranscriptError::XmlParseError(message)),
        }
    }

    /// Makes the transcript out of the events of a document.
    pub fn parse_events(&self, events: &[XmlEvent]) -> (r: Result<Vec<TranscriptItem>, String>)
        ensures
            outcome_model(r) == items_from(event_models(events@), 0, 0),
    {
        let ghost models = event_models(events@);
        let mut items: Vec<TranscriptItem> = Vec::new();
        let mut open: usize = 0;
        let mut i: usize = 0;
        let mut ended = false;
        assert(Seq::<ItemModel>::empty() + Seq::<ItemModel>::empty() =~= Seq::<ItemModel>::empty());
        while i < events.len() && !ended
            invariant
                i <= events.len(),
                open <= i,
                models == event_models(events@),
                !ended ==> items_from(models, 0, 0) == after_items(
                    item_models(items@),
                    items_from(models, i as int, open as nat),
                ),
                ended ==> items_from(models, 0, 0) == after_items(
                    item_models(items@),
                    at_end(open as nat),
                ),
            decreases events.len() - i + if ended { 0int } else { 1int },
        {
            assert(models[i as int] == events@[i as int]@);
            let ghost front = item_models(items@);
            match &events[i] {
                XmlEvent::Start { name, attributes } => {
                    match dialect_for(name.as_slice()) {
                        Some(dialect) => {
                            let read = match dialect {
                                Dialect::Text => self.parse_text_element(
                                    events,
                                    i + 1,
                                    attributes.as_slice(),
                                ),
                                Dialect::Paragraph => self.parse_p_element(
                                    events,
                                    i + 1,
                                    attributes.as_slice(),
                                ),
                            };
                            match read {
                                Err(message) => {
                                    return Err(message);
                                },
                                Ok((item, next)) => {
                                    let ghost rest = items_from(models, next as int, open as nat);
                                    match item {
                                        Some(item) => {
                                            items.push(item);
                                            assert(item_models(items@) =~= front + seq![item@]);
                                            proof {
                                                if let Ok(tail) = rest {
                                                    assert(front + (seq![item@] + tail) =~= (front
                                                        + seq![item@]) + tail);
                                                }
                                            }
                                        },
                                        None => {},
                                    }
                                    i = next;
                                },
                            }
                        },
                        None => {
                            open += 1;
                            i += 1;
                        },
                    }
                },
                XmlEvent::End { name } => {
                    if open > 0 && dialect_for(name.as_slice()).is_none() {
                        open -= 1;
                    }
                    i += 1;
                },
                XmlEvent::Eof => {
                    ended = true;
                },
                XmlEvent::Failed { message } => {
                    return Err(message_with("XML parse error: ", message.as_str()));
                },
                _ => {
                    i += 1;
                },
            }
        }
        assert(item_models(items@) + Seq::<ItemModel>::empty() =~= item_models(items@));
        if open == 0 {
            Ok(items)
        } else {
            Err(String::from_str("XML parse error: the document ends inside an element"))
        }
    }

    /// Reads one `text` element: times in seconds, in `start` and `dur`.
    fn parse_text_element(
        &self,
        events: &[XmlEvent],
        pos: usize,
        attributes: &[u8],
    ) -> (r: Result<(Option<TranscriptItem>, usize), String>)
        requires
            pos <= events.len(),
        ensures
            element_model(r) == element_result(
            event_models(events@),
            pos as int,
            Dialect::Text,
            attribute_list(attributes@),
        ),
        r matches Ok((_, next)) ==> pos < next <= events.len(),
    {
        parse_element(events, pos, attributes, Dialect::Text)
    }

    /// Reads one `p` element: times in milliseconds, in `t` and `d`; a
    /// nested `s` or `br` start tag stands for one space.
    fn parse_p_element(
        &self,
        events: &[XmlEvent],
        pos: usize,
        attributes: &[u8],
    ) -> (r: Result<(Option<TranscriptItem>, usize), String>)
        requires
            pos <= events.len(),
        ensures
            element_model(r) == element_result(
            event_models(events@),
            pos as int,
            Dialect::Paragraph,
            attribute_list(attributes@),
        ),
        r matches Ok((_, next)) ==> pos < next <= events.len(),
    {
        parse_element(events, pos, attributes, Dialect::Paragraph)
    }
}


/// One cue element of a document: its kind, the attributes of its start
/// tag, and the text gathered inside it.
pub struct Element {
    pub dialect: Dialect,
    pub attributes: Seq<Option<AttributeModel>>,
    pub text: Seq<char>,
}

/// The cue elements that are read from the event at `pos` on, in the order
/// of the document, up to the end of the document or the first failure.
pub open spec fn elements_from(events: Seq<EventModel>, pos: int) -> Seq<Element>
    decreases events.len() - pos,
    via elements_from_decreases
{
    if pos < 0 || pos >= events.len() {
        Seq::empty()
    } else {
        match events[pos] {
            EventModel::Start { name, attributes } => match dialect_of(name) {
                Some(dialect) => match element_outcome(events, pos + 1, dialect, Seq::empty()) {
                    ElementOutcome::Closed { text, next } => seq![
                        Element { dialect, attributes: attribute_list(attributes), text },
                    ] + elements_from(events, next),
                    ElementOutcome::Broken { message } => Seq::empty(),
                },
                None => elements_from(events, pos + 1),
            },
            EventModel::Eof => Seq::empty(),
            EventModel::Failed { message } => Seq::empty(),
            _ => elements_from(events, pos + 1),
        }
    }
}

#[via_fn]
proof fn elements_from_decreases(events: Seq<EventModel>, pos: int) {
    if 0 <= pos < events.len() {
        match events[pos] {
            EventModel::Start { name, attributes } => match dialect_of(name) {
                Some(dialect) => {
                    lemma_element_ends_later(events, pos + 1, dialect, Seq::empty());
                },
                None => {},
            },
            _ => {},
        }
    }
}

/// The cues of `elements`, in their order: one for each element whose text
/// is not empty once trimmed.
pub open spec fn cues_of(elements: Seq<Element>) -> Seq<ItemModel>
    decreases elements.len(),
{
    if elements.len() == 0 {
        Seq::empty()
    } else {
        match cue_of(elements[0].dialect, elements[0].attributes, elements[0].text) {
            Some(item) => seq![item] + cues_of(elements.skip(1)),
            None => cues_of(elements.skip(1)),
        }
    }
}

/// How many of `elements` have a text that is not empty once trimmed.
pub open spec fn count_spoken(elements: Seq<Element>) -> nat
    decreases elements.len(),
{
    if elements.len() == 0 {
        0
    } else if trim_spec(elements[0].text).len() == 0 {
        count_spoken(elements.skip(1))
    } else {
        1 + count_spoken(elements.skip(1))
    }
}

/// An element gives no cue exactly where its text is empty or white space
/// only.
pub proof fn law_blank_element_gives_no_cue(
    dialect: Dialect,
    attributes: Seq<Option<AttributeModel>>,
    text: Seq<char>,
)
    ensures
        cue_of(dialect, attributes, text) is None <==> trim_spec(text).len() == 0,
        cue_of(dialect, attributes, text) matches Some(item) ==> item.text == trim_spec(text),
{
}

/// A transcript holds exactly one item for each cue element that is not
/// blank, in the order of the document.
pub proof fn law_one_item_for_each_spoken_element(events: Seq<EventModel>, pos: int, open: nat)
    requires
        0 <= pos,
    ensures
        items_from(events, pos, open) matches Ok(items) ==> items == cues_of(
            elements_from(events, pos),
        ) && items.len() == count_spoken(elements_from(events, pos)),
    decreases events.len() - pos,
{
    if pos < events.len() {
        match events[pos] {
            EventModel::Start { name, attributes } => match dialect_of(name) {
                Some(dialect) => {
                    lemma_element_ends_later(events, pos + 1, dialect, Seq::empty());
                    match element_outcome(events, pos + 1, dialect, Seq::empty()) {
                        ElementOutcome::Closed { text, next } => {
                            law_one_item_for_each_spoken_element(events, next, open);
                            let first = Element {
                                dialect,
                                attributes: attribute_list(attributes),
                                text,
                            };
                            let all = elements_from(events, pos);
                            assert(all == seq![first] + elements_from(events, next));
                            assert(all[0] == first);
                            assert(all.skip(1) =~= elements_from(events, next));
                        },
                        ElementOutcome::Broken { message } => {},
                    }
                },
                None => {
                    law_one_item_for_each_spoken_element(events, pos + 1, open + 1);
                },
            },
            EventModel::End { name } => {
                if dialect_of(name) is None && open > 0 {
                    law_one_item_for_each_spoken_element(events, pos + 1, (open - 1) as nat);
                } else {
                    law_one_item_for_each_spoken_element(events, pos + 1, open);
                }
            },
            EventModel::Eof => {},
            EventModel::Failed { message } => {},
            _ => {
                law_one_item_for_each_spoken_element(events, pos + 1, open);
            },
        }
    }
}

/// An element that is being read when the document stops, at its end or at
/// a failure, is broken, unless its end tag came before.
pub proof fn lemma_element_ends_before_stop(
    events: Seq<EventModel>,
    pos: int,
    dialect: Dialect,
    text: Seq<char>,
    k: int,
)
    requires
        0 <= pos <= k <= events.len(),
        k < events.len() ==> events[k] is Failed || events[k] is Eof,
    ensures
        element_outcome(events, pos, dialect, text) matches ElementOutcome::Closed { next, .. }
            ==> pos < next <= k,
    decreases k - pos,
{
    if pos < k {
        match events[pos] {
            EventModel::Text { raw } => match unescaped(raw) {
                Ok(plain) => {
                    lemma_element_ends_before_stop(events, pos + 1, dialect, text + decode_spec(plain), k);
                },
                Err(detail) => {},
            },
            EventModel::Start { name, attributes } => {
                lemma_element_ends_before_stop(events, pos + 1, dialect, after_start_tag(text, dialect, name), k);
            },
            EventModel::Empty { name, attributes } => {
                lemma_element_ends_before_stop(events, pos + 1, dialect, after_start_tag(text, dialect, name), k);
            },
            EventModel::End { name } => {
                if name != element_name(dialect) {
                    lemma_element_ends_before_stop(events, pos + 1, dialect, text, k);
                }
            },
            EventModel::Other => {
                lemma_element_ends_before_stop(events, pos + 1, dialect, text, k);
            },
            _ => {},
        }
    }
}

/// Where the reader fails before the document has ended, there is no
/// transcript, not even of the cues that came before the failure.
pub proof fn law_failure_gives_no_transcript(events: Seq<EventModel>, pos: int, open: nat, k: int)
    requires
        0 <= pos <= k < events.len(),
        events[k] is Failed,
        forall|i: int| pos <= i < k ==> !(#[trigger] events[i] is Eof),
    ensures
        items_from(events, pos, open) is Err,
    decreases k - pos,
{
    if pos < k {
        assert(!(events[pos] is Eof));
        match events[pos] {
            EventModel::Start { name, attributes } => match dialect_of(name) {
                Some(dialect) => {
                    lemma_element_ends_before_stop(events, pos + 1, dialect, Seq::empty(), k);
                    match element_outcome(events, pos + 1, dialect, Seq::empty()) {
                        ElementOutcome::Closed { text, next } => {
                            law_failure_gives_no_transcript(events, next, open, k);
                        },
                        ElementOutcome::Broken { message } => {},
                    }
                },
                None => {
                    law_failure_gives_no_transcript(events, pos + 1, open + 1, k);
                },
            },
            EventModel::End { name } => {
                if dialect_of(name) is None && open > 0 {
                    law_failure_gives_no_transcript(events, pos + 1, (open - 1) as nat, k);
                } else {
                    law_failure_gives_no_transcript(events, pos + 1, open, k);
                }
            },
            EventModel::Failed { message } => {},
            _ => {
                law_failure_gives_no_transcript(events, pos + 1, open, k);
            },
        }
    }
}

/// An element whose end tag does not come before the document ends is
/// broken.
pub proof fn lemma_unclosed_element_is_broken(
    events: Seq<EventModel>,
    pos: int,
    dialect: Dialect,
    text: Seq<char>,
    k: int,
)
    requires
        0 <= pos <= k <= events.len(),
        k < events.len() ==> events[k] is Eof,
        forall|i: int|
            pos <= i < k ==> !(#[trigger] events[i] matches EventModel::End { name } && name
                == element_name(dialect)),
    ensures
        element_outcome(events, pos, dialect, text) is Broken,
    decreases k - pos,
{
    if pos < k {
        assert(!(events[pos] matches EventModel::End { name } && name == element_name(dialect)));
        match events[pos] {
            EventModel::Text { raw } => match unescaped(raw) {
                Ok(plain) => {
                    lemma_unclosed_element_is_broken(events, pos + 1, dialect, text + decode_spec(plain), k);
                },
                Err(detail) => {},
            },
            EventModel::Start { name, attributes } => {
                lemma_unclosed_element_is_broken(events, pos + 1, dialect, after_start_tag(text, dialect, name), k);
            },
            EventModel::Empty { name, attributes } => {
                lemma_unclosed_element_is_broken(events, pos + 1, dialect, after_start_tag(text, dialect, name), k);
            },
            EventModel::End { name } => {
                lemma_unclosed_element_is_broken(events, pos + 1, dialect, text, k);
            },
            EventModel::Other => {
                lemma_unclosed_element_is_broken(events, pos + 1, dialect, text, k);
            },
            _ => {},
        }
    }
}

/// Where a cue element is opened and the document ends before its end tag,
/// there is no transcript from there on, not even in part.
pub proof fn law_unclosed_element_gives_no_transcript(
    events: Seq<EventModel>,
    pos: int,
    open: nat,
    dialect: Dialect,
    k: int,
)
    requires
        0 <= pos < k <= events.len(),
        events[pos] matches EventModel::Start { name, .. } && dialect_of(name) == Some(dialect),
        k < events.len() ==> events[k] is Eof,
        forall|i: int|
            pos < i < k ==> !(#[trigger] events[i] matches EventModel::End { name } && name
                == element_name(dialect)),
    ensures
        items_from(events, pos, open) is Err,
{
    lemma_unclosed_element_is_broken(events, pos + 1, dialect, Seq::empty(), k);
}

/// While an element other than a cue is open, and none such is closed
/// before the document ends, there is no transcript.
pub proof fn lemma_open_element_gives_no_transcript(
    events: Seq<EventModel>,
    pos: int,
    open: nat,
    k: int,
)
    requires
        0 <= pos <= k <= events.len(),
        open > 0,
        k < events.len() ==> events[k] is Eof,
        forall|i: int|
            pos <= i < k ==> !(#[trigger] events[i] matches EventModel::End { name } && dialect_of(
                name,
            ) is None),
    ensures
        items_from(events, pos, open) is Err,
    decreases k - pos,
{
    if pos < k {
        assert(!(events[pos] matches EventModel::End { name } && dialect_of(name) is None));
        match events[pos] {
            EventModel::Start { name, attributes } => match dialect_of(name) {
                Some(dialect) => {
                    lemma_element_ends_before_stop(events, pos + 1, dialect, Seq::empty(), k);
                    match element_outcome(events, pos + 1, dialect, Seq::empty()) {
                        ElementOutcome::Closed { text, next } => {
                            lemma_open_element_gives_no_transcript(events, next, open, k);
                        },
                        ElementOutcome::Broken { message } => {},
                    }
                },
                None => {
                    lemma_open_element_gives_no_transcript(events, pos + 1, open + 1, k);
                },
            },
            EventModel::End { name } => {
                lemma_open_element_gives_no_transcript(events, pos + 1, open, k);
            },
            EventModel::Eof => {},
            EventModel::Failed { message } => {},
            _ => {
                lemma_open_element_gives_no_transcript(events, pos + 1, open, k);
            },
        }
    }
}

/// Where an element other than a cue is opened, a root or any other, and
/// the document ends before an element of that sort is closed, there is no
/// transcript, not even of the cues that were complete.
pub proof fn law_unclosed_outer_element_gives_no_transcript(
    events: Seq<EventModel>,
    pos: int,
    open: nat,
    k: int,
)
    requires
        0 <= pos < k <= events.len(),
        events[pos] matches EventModel::Start { name, .. } && dialect_of(name) is None,
        k < events.len() ==> events[k] is Eof,
        forall|i: int|
            pos < i < k ==> !(#[trigger] events[i] matches EventModel::End { name } && dialect_of(
                name,
            ) is None),
    ensures
        items_from(events, pos, open) is Err,
{
    lemma_open_element_gives_no_transcript(events, pos + 1, open + 1, k);
}

/// The end of the document gives a transcript only where no element is
/// open.
pub proof fn law_end_with_open_element_is_a_failure(events: Seq<EventModel>, pos: int, open: nat)
    requires
        0 <= pos,
        pos >= events.len() || events[pos] is Eof,
    ensures
        items_from(events, pos, open) is Ok <==> open == 0,
{
}

} // verus!
