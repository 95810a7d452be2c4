//! Markdown as the flat list of events that its parser yields.

use pulldown_cmark::Event as Parsed;
use pulldown_cmark::{CodeBlockKind, Options, Parser, Tag, TagEnd};
use vstd::prelude::*;

verus! {

/// `pulldown_cmark::Event`.
#[verifier::external_type_specification]
#[verifier::external_body]
pub struct ExEvent<'a>(Parsed<'a>);

/// `pulldown_cmark::Tag`.
#[verifier::external_type_specification]
#[verifier::external_body]
pub struct ExTag<'a>(Tag<'a>);

/// `pulldown_cmark::TagEnd`.
#[verifier::external_type_specification]
#[verifier::external_body]
pub struct ExTagEnd(TagEnd);

/// The kinds of element that rendering tells apart.
#[derive(Clone, Copy, Debug, PartialEq, Eq, Structural)]
pub enum MdTag {
    Paragraph,
    Heading,
    BlockQuote,
    CodeBlock,
    List,
    Item,
    Emphasis,
    Strong,
    Strikethrough,
    Link,
    Image,
    Table,
    TableHead,
    TableRow,
    TableCell,
    FootnoteDefinition,
    Other,
}

/// One parser event, with the text it carries.
#[derive(Debug)]
pub enum MdEvent {
    /// A code block opens; the text is its info string, empty when indented.
    StartCode(String),
    /// A list opens; an ordered one has the number of its first item.
    StartList(Option<u64>),
    /// A link opens; the text is its destination.
    StartLink(String),
    /// A footnote definition opens; the text is its label.
    StartFootnote(String),
    /// Any other element opens.
    Start(MdTag),
    End(MdTag),
    Text(String),
    Code(String),
    Html(String),
    InlineHtml(String),
    FootnoteReference(String),
    InlineMath(String),
    DisplayMath(String),
    SoftBreak,
    HardBreak,
    Rule,
    TaskListMarker(bool),
}

/// An event as a mathematical value.
pub ghost enum MdEventView {
    StartCode(Seq<char>),
    StartList(Option<u64>),
    StartLink(Seq<char>),
    StartFootnote(Seq<char>),
    Start(MdTag),
    End(MdTag),
    Text(Seq<char>),
    Code(Seq<char>),
    Html(Seq<char>),
    InlineHtml(Seq<char>),
    FootnoteReference(Seq<char>),
    InlineMath(Seq<char>),
    DisplayMath(Seq<char>),
    SoftBreak,
    HardBreak,
    Rule,
    TaskListMarker(bool),
}

impl View for MdEvent {
    type V = MdEventView;

    open spec fn view(&self) -> MdEventView {
        match self {
            MdEvent::StartCode(s) => MdEventView::StartCode(s@),
            MdEvent::StartList(n) => MdEventView::StartList(*n),
            MdEvent::StartLink(s) => MdEventView::StartLink(s@),
            MdEvent::StartFootnote(s) => MdEventView::StartFootnote(s@),
            MdEvent::Start(t) => MdEventView::Start(*t),
            MdEvent::End(t) => MdEventView::End(*t),
            MdEvent::Text(s) => MdEventView::Text(s@),
            MdEvent::Code(s) => MdEventView::Code(s@),
            MdEvent::Html(s) => MdEventView::Html(s@),
            MdEvent::InlineHtml(s) => MdEventView::InlineHtml(s@),
            MdEvent::FootnoteReference(s) => MdEventView::FootnoteReference(s@),
            MdEvent::InlineMath(s) => MdEventView::InlineMath(s@),
            MdEvent::DisplayMath(s) => MdEventView::DisplayMath(s@),
            MdEvent::SoftBreak => MdEventView::SoftBreak,
            MdEvent::HardBreak => MdEventView::HardBreak,
            MdEvent::Rule => MdEventView::Rule,
            MdEvent::TaskListMarker(b) => MdEventView::TaskListMarker(*b),
        }
    }
}

/// The views of a list of events.
pub open spec fn event_views(events: Seq<MdEvent>) -> Seq<MdEventView> {
    events.map_values(|e: MdEvent| e@)
}

/// The events that `pulldown_cmark` yields for `md` with the four extensions
/// switched on or off.
pub uninterp spec fn markdown_events(
    md: Seq<char>,
    tables: bool,
    strikethrough: bool,
    tasklists: bool,
    footnotes: bool,
) -> Seq<MdEventView>;

/// The kind of element that a `TagEnd` closes, one for one; part of what
/// `parse_markdown` converts.
#[verifier::external_body]
fn tag_kind(tag: TagEnd) -> MdTag {
    match tag {
        TagEnd::Paragraph => MdTag::Paragraph, TagEnd::Heading(_) => MdTag::Heading,
        TagEnd::BlockQuote(_) => MdTag::BlockQuote, TagEnd::CodeBlock => MdTag::CodeBlock,
        TagEnd::List(_) => MdTag::List, TagEnd::Item => MdTag::Item,
        TagEnd::Emphasis => MdTag::Emphasis, TagEnd::Strong => MdTag::Strong,
        TagEnd::Strikethrough => MdTag::Strikethrough, TagEnd::Link => MdTag::Link,
        TagEnd::Image => MdTag::Image, TagEnd::Table => MdTag::Table,
        TagEnd::TableHead => MdTag::TableHead, TagEnd::TableRow => MdTag::TableRow,
        TagEnd::TableCell => MdTag::TableCell,
        TagEnd::FootnoteDefinition => MdTag::FootnoteDefinition,
        _ => MdTag::Other,
    }
}

/// An opening `Tag`, with what rendering reads of it; part of what
/// `parse_markdown` converts.
#[verifier::external_body]
fn start_event(tag: Tag<'_>) -> MdEvent {
    match tag {
        Tag::CodeBlock(CodeBlockKind::Fenced(info)) => MdEvent::StartCode(info.into_string()),
        Tag::CodeBlock(CodeBlockKind::Indented) => MdEvent::StartCode(String::new()),
        Tag::List(start) => MdEvent::StartList(start),
        Tag::Link { dest_url, .. } => MdEvent::StartLink(dest_url.into_string()),
        Tag::FootnoteDefinition(label) => MdEvent::StartFootnote(label.into_string()),
        other => MdEvent::Start(tag_kind(other.to_end())),
    }
}

/// An `Event` that carries text; part of what `parse_markdown` converts.
#[verifier::external_body]
fn text_event(event: Parsed<'_>) -> MdEvent {
    match event {
        Parsed::Text(t) => MdEvent::Text(t.into_string()),
        Parsed::Code(t) => MdEvent::Code(t.into_string()),
        Parsed::Html(t) => MdEvent::Html(t.into_string()),
        Parsed::InlineHtml(t) => MdEvent::InlineHtml(t.into_string()),
        Parsed::FootnoteReference(t) => MdEvent::FootnoteReference(t.into_string()),
        Parsed::InlineMath(t) => MdEvent::InlineMath(t.into_string()),
        Parsed::DisplayMath(t) => MdEvent::DisplayMath(t.into_string()),
        other => event_of(other),
    }
}

/// Any `Event`; part of what `parse_markdown` converts.
#[verifier::external_body]
fn event_of(event: Parsed<'_>) -> MdEvent {
    match event {
        Parsed::Start(tag) => start_event(tag),
        Parsed::End(tag) => MdEvent::End(tag_kind(tag)),
        Parsed::SoftBreak => MdEvent::SoftBreak,
        Parsed::HardBreak => MdEvent::HardBreak,
        Parsed::Rule => MdEvent::Rule,
        Parsed::TaskListMarker(done) => MdEvent::TaskListMarker(done),
        other => text_event(other),
    }
}

/// `pulldown_cmark::Parser::new_ext` over all of `md`, with each of the four
/// extensions on or off and no other. The events depend on nothing else.
#[verifier::external_body]
pub(crate) fn parse_markdown(
    md: &str,
    tables: bool,
    strikethrough: bool,
    tasklists: bool,
    footnotes: bool,
) -> (events: Vec<MdEvent>)
    ensures
        event_views(events@) == markdown_events(md@, tables, strikethrough, tasklists, footnotes),
{
    let mut options = Options::empty();
    options.set(Options::ENABLE_TABLES, tables);
    options.set(Options::ENABLE_STRIKETHROUGH, strikethrough);
    options.set(Options::ENABLE_TASKLISTS, tasklists);
    options.set(Options::ENABLE_FOOTNOTES, footnotes);
    Parser::new_ext(md, options).map(event_of).collect()
}

}
