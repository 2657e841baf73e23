//! Markdown events as plain values, and the calls into the CommonMark
//! parser that produce them.
use vstd::prelude::*;

use pulldown_cmark::{Event, Options, Parser, Tag, TagEnd};


verus! {

#[verifier::external_type_specification]
#[verifier::external_body]
pub struct ExEvent<'a>(Event<'a>);

#[verifier::external_type_specification]
#[verifier::external_body]
pub struct ExTag<'a>(Tag<'a>);

#[verifier::external_type_specification]
#[verifier::external_body]
pub struct ExTagEnd(TagEnd);

/// The kinds of Markdown element the editor reacts to.
#[derive(Debug, Clone, Copy, PartialEq, Eq, Structural)]
pub enum MdTag {
    /// A heading of the given level (1 to 6).
    Heading(u8),
    Paragraph,
    BlockQuote,
    CodeBlock,
    /// A list, with the number of its first item when it is ordered (an
    /// end tag carries no number).
    List(Option<u64>),
    Item,
    Emphasis,
    Strong,
    /// Any other element.
    Other,
}

/// A Markdown parse event.
#[derive(Debug, Clone, PartialEq, Eq)]
pub enum MdEvent {
    Start(MdTag),
    End(MdTag),
    Text(String),
    Code(String),
    SoftBreak,
    HardBreak,
    Rule,
    /// Any other event.
    Other,
}

/// A parse event with the byte range of the source text it covers.
#[derive(Debug, Clone, PartialEq, Eq)]
pub struct MdSpan {
    pub event: MdEvent,
    pub start: usize,
    pub end: usize,
}

/// Tells the variants of a pulldown-cmark `Event` apart, one arm each,
/// copying the text of text and code events.
#[verifier::external_body]
fn event_to_md(e: &Event) -> MdEvent {
    match e {
        Event::Start(t) => MdEvent::Start(tag_to_md(t)),
        Event::End(t) => MdEvent::End(tag_end_to_md(t)),
        Event::Text(s) => MdEvent::Text(s.to_string()),
        Event::Code(s) => MdEvent::Code(s.to_string()),
        Event::SoftBreak => MdEvent::SoftBreak,
        Event::HardBreak => MdEvent::HardBreak,
        Event::Rule => MdEvent::Rule,
        _ => MdEvent::Other,
    }
}

/// Tells the variants of a pulldown-cmark `Tag` apart, one arm each, keeping
/// a heading's level and a list's first number.
#[verifier::external_body]
fn tag_to_md(t: &Tag) -> MdTag {
    match t {
        Tag::Heading { level, .. } => MdTag::Heading(*level as u8),
        Tag::Paragraph => MdTag::Paragraph,
        Tag::BlockQuote(_) => MdTag::BlockQuote,
        Tag::CodeBlock(_) => MdTag::CodeBlock,
        Tag::List(start) => MdTag::List(*start),
        Tag::Item => MdTag::Item,
        Tag::Emphasis => MdTag::Emphasis,
        Tag::Strong => MdTag::Strong,
        _ => MdTag::Other,
    }
}

/// Tells the variants of a pulldown-cmark `TagEnd` apart, one arm each,
/// keeping a heading's level.
#[verifier::external_body]
fn tag_end_to_md(t: &TagEnd) -> MdTag {
    match t {
        TagEnd::Heading(level) => MdTag::Heading(*level as u8),
        TagEnd::Paragraph => MdTag::Paragraph,
        TagEnd::BlockQuote(_) => MdTag::BlockQuote,
        TagEnd::CodeBlock => MdTag::CodeBlock,
        TagEnd::List(_) => MdTag::List(None),
        TagEnd::Item => MdTag::Item,
        TagEnd::Emphasis => MdTag::Emphasis,
        TagEnd::Strong => MdTag::Strong,
        _ => MdTag::Other,
    }
}

/// The events, as plain values, that pulldown-cmark's parser (all
/// extensions enabled) produces for a text; it depends on the text alone.
pub uninterp spec fn commonmark_events(text: Seq<char>) -> Seq<MdEvent>;

/// The events, as plain values and with the byte ranges of the source they
/// cover, that pulldown-cmark's parser (all extensions enabled, iterated by
/// `into_offset_iter`) produces for a text; it depends on the text alone.
pub uninterp spec fn commonmark_spans(text: Seq<char>) -> Seq<MdSpan>;

/// `Parser::new_ext` with `Options::all()`, each event converted to an
/// `MdEvent`: the result is named `commonmark_events`.
#[verifier::external_body]
pub(crate) fn markdown_events(text: &str) -> (r: Vec<MdEvent>)
    ensures
        r@ == commonmark_events(text@),
{
    Parser::new_ext(text, Options::all()).map(|e| event_to_md(&e)).collect()
}

/// `Parser::new_ext` with `Options::all()` and `into_offset_iter`, each event
/// converted to an `MdEvent` with its byte range: the result is named
/// `commonmark_spans`.
#[verifier::external_body]
pub(crate) fn markdown_spans(text: &str) -> (r: Vec<MdSpan>)
    ensures
        r@ == commonmark_spans(text@),
{
    Parser::new_ext(text, Options::all()).into_offset_iter().map(
        |(e, range)| MdSpan { event: event_to_md(&e), start: range.start, end: range.end },
    ).collect()
}

} // verus!
