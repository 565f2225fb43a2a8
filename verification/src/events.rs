use vstd::prelude::*;

use pulldown_cmark::{CodeBlockKind, Event, Parser, Tag, TagEnd};

verus! {

/// The start of a Markdown element, as far as rendering tells elements apart.
#[derive(Clone, Debug, PartialEq, Eq)]
pub enum MdTag {
    /// A code block: the info string of a fenced block, `None` for an indented one.
    CodeBlock(Option<String>),
    /// A table with this many columns.
    Table(usize),
    TableHead,
    TableRow,
    TableCell,
    /// A heading of this level (1 to 6).
    Heading(u8),
    Strong,
    Emphasis,
    Strikethrough,
    Link,
    Image,
    /// A list: the number of its first item when it is ordered.
    List(Option<u64>),
    Item,
    BlockQuote,
    Other,
}

/// The end of a Markdown element.
#[derive(Clone, Copy, Debug, PartialEq, Eq)]
pub enum MdTagEnd {
    CodeBlock,
    Table,
    TableHead,
    TableRow,
    TableCell,
    Heading,
    Paragraph,
    Item,
    List,
    BlockQuote,
    Other,
}

/// One event of a Markdown document.
#[derive(Clone, Debug, PartialEq, Eq)]
pub enum MdEvent {
    Start(MdTag),
    End(MdTagEnd),
    Text(String),
    Code(String),
    SoftBreak,
    HardBreak,
    Rule,
    Other,
}

/// The mathematical value of an [`MdTag`].
pub enum MdTagView {
    CodeBlock(Option<Seq<char>>),
    Table(nat),
    TableHead,
    TableRow,
    TableCell,
    Heading(u8),
    Strong,
    Emphasis,
    Strikethrough,
    Link,
    Image,
    List(Option<u64>),
    Item,
    BlockQuote,
    Other,
}

/// The mathematical value of an [`MdEvent`].
pub enum MdEventView {
    Start(MdTagView),
    End(MdTagEnd),
    Text(Seq<char>),
    Code(Seq<char>),
    SoftBreak,
    HardBreak,
    Rule,
    Other,
}

impl View for MdTag {
    type V = MdTagView;

    open spec fn view(&self) -> MdTagView {
        match self {
            MdTag::CodeBlock(l) => MdTagView::CodeBlock(
                match l {
                    Some(s) => Some(s@),
                    None => None,
                },
            ),
            MdTag::Table(n) => MdTagView::Table(*n as nat),
            MdTag::TableHead => MdTagView::TableHead,
            MdTag::TableRow => MdTagView::TableRow,
            MdTag::TableCell => MdTagView::TableCell,
            MdTag::Heading(l) => MdTagView::Heading(*l),
            MdTag::Strong => MdTagView::Strong,
            MdTag::Emphasis => MdTagView::Emphasis,
            MdTag::Strikethrough => MdTagView::Strikethrough,
            MdTag::Link => MdTagView::Link,
            MdTag::Image => MdTagView::Image,
            MdTag::List(s) => MdTagView::List(*s),
            MdTag::Item => MdTagView::Item,
            MdTag::BlockQuote => MdTagView::BlockQuote,
            MdTag::Other => MdTagView::Other,
        }
    }
}

impl View for MdEvent {
    type V = MdEventView;

    open spec fn view(&self) -> MdEventView {
        match self {
            MdEvent::Start(t) => MdEventView::Start(t@),
            MdEvent::End(t) => MdEventView::End(*t),
            MdEvent::Text(s) => MdEventView::Text(s@),
            MdEvent::Code(s) => MdEventView::Code(s@),
            MdEvent::SoftBreak => MdEventView::SoftBreak,
            MdEvent::HardBreak => MdEventView::HardBreak,
            MdEvent::Rule => MdEventView::Rule,
            MdEvent::Other => MdEventView::Other,
        }
    }
}

/// The values of a sequence of events.
pub open spec fn event_views(s: Seq<MdEvent>) -> Seq<MdEventView> {
    s.map_values(|e: MdEvent| e@)
}

/// The events that `pulldown_cmark::Parser::new` (default options: no tables, no
/// strike-through) yields for a document, as the values of [`MdEvent`].
pub uninterp spec fn commonmark_events(input: Seq<char>) -> Seq<MdEventView>;

#[verifier::external_type_specification]
#[verifier::external_body]
pub struct ExEvent<'a>(Event<'a>);

#[verifier::external_type_specification]
#[verifier::external_body]
pub struct ExTag<'a>(Tag<'a>);

#[verifier::external_type_specification]
#[verifier::external_body]
pub struct ExTagEnd(TagEnd);

/// Parses `input` with `pulldown_cmark::Parser::new` and keeps each event it yields, in
/// order, as an [`MdEvent`]. Claimed: the result is the parser's events, which depend on
/// the text alone.
#[verifier::external_body]
pub(crate) fn markdown_events(input: &str) -> (r: Vec<MdEvent>)
    ensures
        event_views(r@) == commonmark_events(input@),
{
    Parser::new(input).map(event_from).collect()
}

/// Part of [`markdown_events`]: converts one `pulldown_cmark::Event`, variant by variant,
/// moving its text; nothing is claimed of it on its own.
#[verifier::external_body]
fn event_from(e: Event<'_>) -> MdEvent {
    match e {
        Event::Start(t) => MdEvent::Start(tag_from(t)),
        Event::End(t) => MdEvent::End(tag_end_from(t)),
        Event::Text(s) => MdEvent::Text(s.to_string()),
        Event::Code(s) => MdEvent::Code(s.to_string()),
        Event::SoftBreak => MdEvent::SoftBreak,
        Event::HardBreak => MdEvent::HardBreak,
        Event::Rule => MdEvent::Rule,
        _ => MdEvent::Other,
    }
}

/// Part of [`markdown_events`]: converts a block-level `pulldown_cmark::Tag`, variant by
/// variant (a table by its number of columns, a heading by its level).
#[verifier::external_body]
fn tag_from(t: Tag<'_>) -> MdTag {
    match t {
        Tag::CodeBlock(CodeBlockKind::Fenced(l)) => MdTag::CodeBlock(Some(l.to_string())),
        Tag::CodeBlock(CodeBlockKind::Indented) => MdTag::CodeBlock(None),
        Tag::Table(a) => MdTag::Table(a.len()),
        Tag::TableHead => MdTag::TableHead,
        Tag::TableRow => MdTag::TableRow,
        Tag::TableCell => MdTag::TableCell,
        Tag::Heading { level, .. } => MdTag::Heading(level as u8),
        Tag::List(s) => MdTag::List(s),
        Tag::Item => MdTag::Item,
        Tag::BlockQuote(_) => MdTag::BlockQuote,
        other => inline_tag_from(other),
    }
}

/// Part of [`markdown_events`]: converts a span-level `pulldown_cmark::Tag`, variant by
/// variant.
#[verifier::external_body]
fn inline_tag_from(t: Tag<'_>) -> MdTag {
    match t {
        Tag::Strong => MdTag::Strong,
        Tag::Emphasis => MdTag::Emphasis,
        Tag::Strikethrough => MdTag::Strikethrough,
        Tag::Link { .. } => MdTag::Link,
        Tag::Image { .. } => MdTag::Image,
        _ => MdTag::Other,
    }
}

/// Part of [`markdown_events`]: converts a `pulldown_cmark::TagEnd`, variant by variant.
#[verifier::external_body]
fn tag_end_from(t: TagEnd) -> MdTagEnd {
    match t {
        TagEnd::CodeBlock => MdTagEnd::CodeBlock,
        TagEnd::Table => MdTagEnd::Table,
        TagEnd::TableHead => MdTagEnd::TableHead,
        TagEnd::TableRow => MdTagEnd::TableRow,
        TagEnd::TableCell => MdTagEnd::TableCell,
        TagEnd::Heading(_) => MdTagEnd::Heading,
        TagEnd::Paragraph => MdTagEnd::Paragraph,
        TagEnd::Item => MdTagEnd::Item,
        TagEnd::List(_) => MdTagEnd::List,
        TagEnd::BlockQuote(_) => MdTagEnd::BlockQuote,
        _ => MdTagEnd::Other,
    }
}

} // verus!
