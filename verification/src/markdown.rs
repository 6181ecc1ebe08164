//! The Markdown event stream: the CommonMark parser of `pulldown_cmark`
//! turns text into a stream of start/end/text events, which this module
//! hands on as plain values.

use vstd::prelude::*;
use crate::blocks::HeadingLevel;
use pulldown_cmark::{CodeBlockKind, Event, Options, Parser, Tag, TagEnd};
use pulldown_cmark::HeadingLevel as PulldownHeadingLevel;

verus! {

/// The opening tag of a Markdown element, as plain values.
#[derive(Debug, Clone)]
pub enum MdTag {
    Paragraph,
    Heading(HeadingLevel),
    BlockQuote,
    /// A code block: the info string of a fenced block, `None` for an indented one.
    CodeBlock(Option<String>),
    HtmlBlock,
    /// A list, with the number of its first item when it is ordered.
    List(Option<u64>),
    Item,
    Table,
    TableHead,
    TableRow,
    TableCell,
    Emphasis,
    Strong,
    Strikethrough,
    /// A link, with its destination.
    Link(String),
    /// An image, with its destination.
    Image(String),
    /// Any other element (footnotes, definition lists, super/subscript, metadata).
    Other,
}

/// The closing tag of a Markdown element, as plain values.
#[derive(Debug, Clone)]
pub enum MdTagEnd {
    Paragraph,
    Heading,
    BlockQuote,
    CodeBlock,
    HtmlBlock,
    /// The end of a list, and whether it was ordered.
    List(bool),
    Item,
    Table,
    TableHead,
    TableRow,
    TableCell,
    Emphasis,
    Strong,
    Strikethrough,
    Link,
    Image,
    Other,
}

/// One event of the Markdown event stream, as plain values.
#[derive(Debug, Clone)]
pub enum MdEvent {
    Start(MdTag),
    End(MdTagEnd),
    Text(String),
    Code(String),
    Html(String),
    InlineHtml(String),
    SoftBreak,
    HardBreak,
    Rule,
    /// Any other event (math, footnote references, task markers).
    Other,
}

#[verifier::external_type_specification]
#[verifier::external_body]
pub struct ExEvent<'a>(Event<'a>);

#[verifier::external_type_specification]
#[verifier::external_body]
pub struct ExTag<'a>(Tag<'a>);

#[verifier::external_type_specification]
#[verifier::external_body]
pub struct ExTagEnd(TagEnd);

#[verifier::external_type_specification]
#[verifier::external_body]
pub struct ExCodeBlockKind<'a>(CodeBlockKind<'a>);

#[verifier::external_type_specification]
#[verifier::external_body]
pub struct ExPulldownHeadingLevel(PulldownHeadingLevel);

/// The event stream that `pulldown_cmark::Parser::new_ext` produces for a
/// Markdown text with the options of those bits (`Options::from_bits_truncate`),
/// each event converted to an `MdEvent`.
pub uninterp spec fn markdown_event_stream(markdown: Seq<char>, options: u32) -> Seq<MdEvent>;

/// The parser options that the viewer reads Markdown with: tables,
/// strikethrough, task lists and smart punctuation (pulldown-cmark's option
/// bits 1, 3, 4 and 5).
pub const MARKDOWN_OPTIONS: u32 = 58;

/// Runs `pulldown_cmark::Parser::new_ext` on the text with the options of
/// those bits and collects its events as `MdEvent`s. Claimed: the result is
/// `markdown_event_stream` of the text and the bits, that is, it depends on
/// them alone.
#[verifier::external_body]
fn parser_events(markdown: &str, options: u32) -> (events: Vec<MdEvent>)
    ensures
        events@ == markdown_event_stream(markdown@, options),
{
    Parser::new_ext(markdown, Options::from_bits_truncate(options)).map(convert_event).collect()
}

/// The Markdown events of a text, read with tables, strikethrough, task lists
/// and smart punctuation enabled.
pub fn markdown_events(markdown: &str) -> (events: Vec<MdEvent>)
    ensures
        events@ == markdown_event_stream(markdown@, MARKDOWN_OPTIONS),
{
    parser_events(markdown, MARKDOWN_OPTIONS)
}

/// Converts one `pulldown_cmark::Event` to an `MdEvent`, variant by variant.
/// Nothing is claimed of it beyond its type.
#[verifier::external_body]
fn convert_event(event: Event) -> MdEvent {
    match event {
        Event::Start(tag) => MdEvent::Start(convert_tag(tag)),
        Event::End(tag) => MdEvent::End(convert_tag_end(tag)),
        Event::Text(s) => MdEvent::Text(s.into_string()),
        Event::Code(s) => MdEvent::Code(s.into_string()),
        Event::Html(s) => MdEvent::Html(s.into_string()),
        Event::InlineHtml(s) => MdEvent::InlineHtml(s.into_string()),
        Event::SoftBreak => MdEvent::SoftBreak,
        Event::HardBreak => MdEvent::HardBreak,
        Event::Rule => MdEvent::Rule,
        _ => MdEvent::Other,
    }
}

/// Converts a block-level `pulldown_cmark::Tag` to an `MdTag`, variant by
/// variant; inline tags go to `convert_inline_tag`. Nothing is claimed of it
/// beyond its type.
#[verifier::external_body]
fn convert_tag(tag: Tag) -> MdTag {
    match tag {
        Tag::Paragraph => MdTag::Paragraph,
        Tag::Heading { level, .. } => MdTag::Heading(HeadingLevel::from_pulldown(level)),
        Tag::BlockQuote(_) => MdTag::BlockQuote,
        Tag::CodeBlock(CodeBlockKind::Fenced(info)) => MdTag::CodeBlock(Some(info.into_string())),
        Tag::CodeBlock(CodeBlockKind::Indented) => MdTag::CodeBlock(None),
        Tag::HtmlBlock => MdTag::HtmlBlock,
        Tag::List(start) => MdTag::List(start),
        Tag::Item => MdTag::Item,
        Tag::Table(_) => MdTag::Table,
        Tag::TableHead => MdTag::TableHead,
        Tag::TableRow => MdTag::TableRow,
        Tag::TableCell => MdTag::TableCell,
        other => convert_inline_tag(other),
    }
}

/// Converts an inline `pulldown_cmark::Tag` to an `MdTag`, variant by variant.
/// Nothing is claimed of it beyond its type.
#[verifier::external_body]
fn convert_inline_tag(tag: Tag) -> MdTag {
    match tag {
        Tag::Emphasis => MdTag::Emphasis,
        Tag::Strong => MdTag::Strong,
        Tag::Strikethrough => MdTag::Strikethrough,
        Tag::Link { dest_url, .. } => MdTag::Link(dest_url.into_string()),
        Tag::Image { dest_url, .. } => MdTag::Image(dest_url.into_string()),
        _ => MdTag::Other,
    }
}

/// Converts a `pulldown_cmark::TagEnd` to an `MdTagEnd`, variant by variant.
/// Nothing is claimed of it beyond its type.
#[verifier::external_body]
fn convert_tag_end(tag: TagEnd) -> MdTagEnd {
    match tag {
        TagEnd::Paragraph => MdTagEnd::Paragraph, TagEnd::Heading(_) => MdTagEnd::Heading,
        TagEnd::BlockQuote(_) => MdTagEnd::BlockQuote, TagEnd::CodeBlock => MdTagEnd::CodeBlock,
        TagEnd::HtmlBlock => MdTagEnd::HtmlBlock, TagEnd::List(ordered) => MdTagEnd::List(ordered),
        TagEnd::Item => MdTagEnd::Item, TagEnd::Table => MdTagEnd::Table,
        TagEnd::TableHead => MdTagEnd::TableHead, TagEnd::TableRow => MdTagEnd::TableRow,
        TagEnd::TableCell => MdTagEnd::TableCell, TagEnd::Emphasis => MdTagEnd::Emphasis,
        TagEnd::Strong => MdTagEnd::Strong, TagEnd::Strikethrough => MdTagEnd::Strikethrough,
        TagEnd::Link => MdTagEnd::Link, TagEnd::Image => MdTagEnd::Image,
        _ => MdTagEnd::Other,
    }
}

} // verus!
