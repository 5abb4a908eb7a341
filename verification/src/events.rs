//! The structural events of a Markdown document, as far as the converter reads
//! them, and the parser that yields them.

use pulldown_cmark::{CodeBlockKind, Event, Parser, Tag, TagEnd};
use vstd::prelude::*;

verus! {

/// An element that opens and later closes around other events.
#[derive(Clone, Debug, PartialEq, Eq)]
pub enum MdTag {
    Heading,
    BlockQuote,
    /// A code block, with the fence's info string if it is fenced.
    CodeBlock(Option<String>),
    /// A list, with the number of its first item if it is ordered.
    List(Option<u64>),
    Item,
    Emphasis,
    Strong,
    /// A link, with its destination.
    Link(String),
    /// An image, with its destination.
    Image(String),
    /// Any element the converter does not render.
    Other,
}

/// The end of an element.
#[derive(Clone, Copy, Debug, PartialEq, Eq, Structural)]
pub enum MdTagEnd {
    Paragraph,
    Heading,
    BlockQuote,
    CodeBlock,
    List,
    Item,
    Emphasis,
    Strong,
    Link,
    Image,
    /// The end of any element the converter does not render.
    Other,
}

/// One event of a document, in document order.
#[derive(Clone, Debug, PartialEq, Eq)]
pub enum MdEvent {
    Start(MdTag),
    End(MdTagEnd),
    Text(String),
    /// Inline code.
    Code(String),
    SoftBreak,
    HardBreak,
    /// Any event the converter does not render.
    Other,
}

/// What an `MdTag` holds, with texts as character sequences.
pub enum TagModel {
    Heading,
    BlockQuote,
    CodeBlock(Option<Seq<char>>),
    List(Option<u64>),
    Item,
    Emphasis,
    Strong,
    Link(Seq<char>),
    Image(Seq<char>),
    Other,
}

/// What an `MdEvent` holds, with texts as character sequences.
pub enum EventModel {
    Start(TagModel),
    End(MdTagEnd),
    Text(Seq<char>),
    Code(Seq<char>),
    SoftBreak,
    HardBreak,
    Other,
}

impl View for MdTag {
    type V = TagModel;

    open spec fn view(&self) -> TagModel {
        match self {
            MdTag::Heading => TagModel::Heading,
            MdTag::BlockQuote => TagModel::BlockQuote,
            MdTag::CodeBlock(Some(info)) => TagModel::CodeBlock(Some(info@)),
            MdTag::CodeBlock(None) => TagModel::CodeBlock(None),
            MdTag::List(start) => TagModel::List(*start),
            MdTag::Item => TagModel::Item,
            MdTag::Emphasis => TagModel::Emphasis,
            MdTag::Strong => TagModel::Strong,
            MdTag::Link(url) => TagModel::Link(url@),
            MdTag::Image(url) => TagModel::Image(url@),
            MdTag::Other => TagModel::Other,
        }
    }
}

impl View for MdEvent {
    type V = EventModel;

    open spec fn view(&self) -> EventModel {
        match self {
            MdEvent::Start(tag) => EventModel::Start(tag@),
            MdEvent::End(end) => EventModel::End(*end),
            MdEvent::Text(text) => EventModel::Text(text@),
            MdEvent::Code(code) => EventModel::Code(code@),
            MdEvent::SoftBreak => EventModel::SoftBreak,
            MdEvent::HardBreak => EventModel::HardBreak,
            MdEvent::Other => EventModel::Other,
        }
    }
}

/// The models of a sequence of events.
pub open spec fn event_models(events: Seq<MdEvent>) -> Seq<EventModel> {
    events.map_values(|e: MdEvent| e@)
}

#[verifier::external_type_specification]
#[verifier::external_body]
pub struct ExEvent<'a>(Event<'a>);

/// What a `pulldown_cmark::Event` holds: its variant and, of its fields, those
/// the converter reads.
pub uninterp spec fn parsed_model(event: Event) -> EventModel;

/// The events that `pulldown_cmark::Parser::new` yields for `markdown`, first to
/// last, each by what it holds.
pub uninterp spec fn markdown_events(markdown: Seq<char>) -> Seq<EventModel>;

/// The models of a sequence of parser events.
pub open spec fn parsed_models<'a>(events: Seq<Event<'a>>) -> Seq<EventModel> {
    events.map_values(|e: Event<'a>| parsed_model(e))
}

/// The tag that `model` opens, if it opens one.
pub open spec fn opened_tag(model: EventModel) -> Option<TagModel> {
    match model {
        EventModel::Start(tag) => Some(tag),
        _ => None,
    }
}

/// The tag that `model` closes, if it closes one.
pub open spec fn closed_tag(model: EventModel) -> Option<MdTagEnd> {
    match model {
        EventModel::End(end) => Some(end),
        _ => None,
    }
}

/// The view of an optional tag.
pub open spec fn tag_view(tag: Option<MdTag>) -> Option<TagModel> {
    match tag {
        Some(t) => Some(t@),
        None => None,
    }
}

/// What `model` is if it neither opens nor closes a tag.
pub open spec fn leaf_of(model: EventModel) -> EventModel {
    match model {
        EventModel::Start(_) => EventModel::Other,
        EventModel::End(_) => EventModel::Other,
        leaf => leaf,
    }
}

/// `pulldown_cmark::Parser::new(markdown)` with the parser's default options,
/// walked to its end. The parser accepts every text, and the events it yields
/// depend on the text alone.
#[verifier::external_body]
fn parse_markdown(markdown: &str) -> (events: Vec<Event<'_>>)
    ensures
        parsed_models(events@) == markdown_events(markdown@),
{
    Parser::new(markdown).collect()
}

/// Reads an `Event::Start`: tells the variants of `pulldown_cmark::Tag` apart and
/// copies the start number of `Tag::List`, the `dest_url` of `Tag::Link` and
/// `Tag::Image`, and the info string of `CodeBlockKind::Fenced`. Every other tag
/// is `MdTag::Other`; an event that is no `Start` gives `None`.
#[verifier::external_body]
fn start_tag(event: &Event) -> (tag: Option<MdTag>)
    ensures
        tag_view(tag) == opened_tag(parsed_model(*event)),
{
    let Event::Start(tag) = event else { return None };
    Some(match tag {
        Tag::Heading { .. } => MdTag::Heading,
        Tag::BlockQuote => MdTag::BlockQuote,
        Tag::CodeBlock(CodeBlockKind::Fenced(info)) => MdTag::CodeBlock(Some(info.to_string())),
        Tag::CodeBlock(CodeBlockKind::Indented) => MdTag::CodeBlock(None),
        Tag::List(start) => MdTag::List(*start),
        Tag::Item => MdTag::Item,
        Tag::Emphasis => MdTag::Emphasis,
        Tag::Strong => MdTag::Strong,
        Tag::Link { dest_url, .. } => MdTag::Link(dest_url.to_string()),
        Tag::Image { dest_url, .. } => MdTag::Image(dest_url.to_string()),
        _ => MdTag::Other,
    })
}

/// Reads an `Event::End`: tells the variants of `pulldown_cmark::TagEnd` apart.
/// Every other end is `MdTagEnd::Other`; an event that is no `End` gives `None`.
#[verifier::external_body]
fn end_tag(event: &Event) -> (end: Option<MdTagEnd>)
    ensures
        end == closed_tag(parsed_model(*event)),
{
    let Event::End(end) = event else { return None };
    Some(match end {
        TagEnd::Paragraph => MdTagEnd::Paragraph,
        TagEnd::Heading(_) => MdTagEnd::Heading,
        TagEnd::BlockQuote => MdTagEnd::BlockQuote,
        TagEnd::CodeBlock => MdTagEnd::CodeBlock,
        TagEnd::List(_) => MdTagEnd::List,
        TagEnd::Item => MdTagEnd::Item,
        TagEnd::Emphasis => MdTagEnd::Emphasis,
        TagEnd::Strong => MdTagEnd::Strong,
        TagEnd::Link => MdTagEnd::Link,
        TagEnd::Image => MdTagEnd::Image,
        _ => MdTagEnd::Other,
    })
}

/// Reads a `pulldown_cmark::Event` that carries no tag: copies the text of
/// `Event::Text` and `Event::Code` and tells the two breaks apart. Every other
/// event, `Start` and `End` among them, is `MdEvent::Other`.
#[verifier::external_body]
fn leaf_event(event: &Event) -> (leaf: MdEvent)
    ensures
        leaf@ == leaf_of(parsed_model(*event)),
{
    match event {
        Event::Text(text) => MdEvent::Text(text.to_string()),
        Event::Code(code) => MdEvent::Code(code.to_string()),
        Event::SoftBreak => MdEvent::SoftBreak,
        Event::HardBreak => MdEvent::HardBreak,
        _ => MdEvent::Other,
    }
}

/// The library's form of one parser event.
fn read_event(event: &Event) -> (r: MdEvent)
    ensures
        r@ == parsed_model(*event),
{
    match start_tag(event) {
        Some(tag) => MdEvent::Start(tag),
        None => match end_tag(event) {
            Some(end) => MdEvent::End(end),
            None => leaf_event(event),
        },
    }
}

/// Parses `markdown` into its events.
pub fn parse_events(markdown: &str) -> (events: Vec<MdEvent>)
    ensures
        event_models(events@) == markdown_events(markdown@),
{
    let parsed = parse_markdown(markdown);
    let mut events: Vec<MdEvent> = Vec::new();
    let mut i: usize = 0;
    while i < parsed.len()
        invariant
            i <= parsed.len(),
            events.len() == i,
            event_models(events@) == parsed_models(parsed@.take(i as int)),
        decreases parsed.len() - i,
    {
        let ghost before = events@;
        let event = read_event(&parsed[i]);
        events.push(event);
        i += 1;
        assert forall|j: int| 0 <= j < i implies event_models(events@)[j] == parsed_models(
            parsed@.take(i as int),
        )[j] by {
            if j < i - 1 {
                assert(event_models(before)[j] == parsed_models(parsed@.take(i - 1))[j]);
            }
        }
        assert(event_models(events@) =~= parsed_models(parsed@.take(i as int)));
    }
    assert(parsed@.take(i as int) == parsed@);
    events
}

} // verus!
