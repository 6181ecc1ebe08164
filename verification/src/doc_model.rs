//! The meaning of document building, stated over mathematical values: a
//! stack of open containers and the current inline style, advanced one
//! Markdown event at a time.

use vstd::prelude::*;
use crate::blocks::{BlockModel, HeadingLevel, InlineStyle, ItemModel, SpanModel};
use crate::markdown::{MdEvent, MdTag, MdTagEnd};
use crate::text::{find, first_word, opt_chars, starts_with, trim};

verus! {

// ── HTML blocks ─────────────────────────────────────────────────────────────
/// The characters outside `<...>` tags, scanning from the given state.
pub open spec fn strip_tags_from(s: Seq<char>, in_tag: bool) -> Seq<char>
    decreases s.len(),
{
    if s.len() == 0 {
        Seq::empty()
    } else {
        let c = s[0];
        let rest = s.subrange(1, s.len() as int);
        if c == '<' {
            strip_tags_from(rest, true)
        } else if c == '>' {
            strip_tags_from(rest, false)
        } else if !in_tag {
            seq![c] + strip_tags_from(rest, in_tag)
        } else {
            strip_tags_from(rest, in_tag)
        }
    }
}

/// The text content of an HTML fragment: everything outside tags, trimmed.
pub open spec fn strip_html_tags(s: Seq<char>) -> Seq<char> {
    trim(strip_tags_from(s, false))
}

/// The heading level that a digit names.
pub open spec fn heading_digit(c: char) -> Option<HeadingLevel> {
    if c == '1' {
        Some(HeadingLevel::H1)
    } else if c == '2' {
        Some(HeadingLevel::H2)
    } else if c == '3' {
        Some(HeadingLevel::H3)
    } else if c == '4' {
        Some(HeadingLevel::H4)
    } else if c == '5' {
        Some(HeadingLevel::H5)
    } else if c == '6' {
        Some(HeadingLevel::H6)
    } else {
        None
    }
}

/// A span of unstyled text without a link.
pub open spec fn plain_span(text: Seq<char>) -> SpanModel {
    SpanModel {
        text,
        style: InlineStyle { bold: false, italic: false, strikethrough: false, code: false },
        link_url: None,
    }
}

/// The value of the first `id="..."` attribute.
pub open spec fn html_id(t: Seq<char>) -> Option<Seq<char>> {
    match find(t, seq!['i', 'd', '=', '"']) {
        Some(i) => {
            let rest = t.subrange(i + 4, t.len() as int);
            match find(rest, seq!['"']) {
                Some(e) => Some(rest.subrange(0, e)),
                None => None,
            }
        },
        None => None,
    }
}

/// A heading read from a trimmed `<hN ...>text</hN>` block: the level from
/// the digit after `<h`, the id attribute, and the tag-stripped text between
/// the first `>` and the first `</h`; nothing when the text is empty or the
/// closing tag comes before the first `>`.
pub open spec fn html_heading(t: Seq<char>) -> Option<BlockModel> {
    if starts_with(t, seq!['<', 'h']) && t.len() > 2 && heading_digit(t[2]) is Some {
        let level = heading_digit(t[2])->0;
        match (find(t, seq!['>']), find(t, seq!['<', '/', 'h'])) {
            (Some(s), Some(e)) => {
                if s + 1 <= e {
                    let text = strip_html_tags(t.subrange(s + 1, e));
                    if text.len() > 0 {
                        Some(
                            BlockModel::Heading {
                                level,
                                spans: seq![plain_span(text)],
                                id: html_id(t),
                            },
                        )
                    } else {
                        None
                    }
                } else {
                    None
                }
            },
            _ => None,
        }
    } else {
        None
    }
}

/// The block an HTML block becomes: a heading for `<h1>`..`<h6>`, otherwise a
/// paragraph of its tag-stripped text; nothing when no text remains.
pub open spec fn html_block(html: Seq<char>) -> Option<BlockModel> {
    let t = trim(html);
    if t.len() == 0 {
        None
    } else {
        match html_heading(t) {
            Some(b) => Some(b),
            None => {
                let text = strip_html_tags(t);
                if text.len() == 0 {
                    None
                } else {
                    Some(BlockModel::Paragraph { spans: seq![plain_span(text)] })
                }
            },
        }
    }
}

// ── Inline HTML ─────────────────────────────────────────────────────────────
/// What an inline HTML tag does to the text that follows it.
#[derive(PartialEq, Eq, Structural)]
pub enum HtmlEffect {
    Italic(bool),
    Bold(bool),
    Strike(bool),
    LineBreak,
    Ignore,
}

/// The effect of an inline HTML tag, read from its trimmed text.
pub open spec fn inline_html_effect(tag: Seq<char>) -> HtmlEffect {
    let t = trim(tag);
    if t == seq!['<', 'e', 'm', '>'] || t == seq!['<', 'i', '>'] {
        HtmlEffect::Italic(true)
    } else if t == seq!['<', '/', 'e', 'm', '>'] || t == seq!['<', '/', 'i', '>'] {
        HtmlEffect::Italic(false)
    } else if t == seq!['<', 's', 't', 'r', 'o', 'n', 'g', '>'] || t == seq!['<', 'b', '>'] {
        HtmlEffect::Bold(true)
    } else if t == seq!['<', '/', 's', 't', 'r', 'o', 'n', 'g', '>'] || t == seq![
        '<',
        '/',
        'b',
        '>',
    ] {
        HtmlEffect::Bold(false)
    } else if t == seq!['<', 'd', 'e', 'l', '>'] || t == seq!['<', 's', '>'] {
        HtmlEffect::Strike(true)
    } else if t == seq!['<', '/', 'd', 'e', 'l', '>'] || t == seq!['<', '/', 's', '>'] {
        HtmlEffect::Strike(false)
    } else if t == seq!['<', 'b', 'r', '>'] || t == seq!['<', 'b', 'r', '/', '>'] || t == seq![
        '<',
        'b',
        'r',
        ' ',
        '/',
        '>',
    ] {
        HtmlEffect::LineBreak
    } else {
        HtmlEffect::Ignore
    }
}

// ── Builder state ───────────────────────────────────────────────────────────
/// The inline style in force.
pub struct StyleModel {
    pub bold: bool,
    pub italic: bool,
    pub strikethrough: bool,
    pub link_url: Option<Seq<char>>,
}

/// An open container on the builder's stack.
pub enum ContextModel {
    Root { blocks: Seq<BlockModel> },
    Heading { level: HeadingLevel, spans: Seq<SpanModel> },
    Paragraph { spans: Seq<SpanModel> },
    CodeBlock { lang: Option<Seq<char>>, code: Seq<char> },
    BlockQuote { blocks: Seq<BlockModel> },
    List { start: Option<u64>, items: Seq<ItemModel> },
    ListItem { spans: Seq<SpanModel>, children: Seq<BlockModel> },
    Table {
        in_head: bool,
        headers: Seq<Seq<SpanModel>>,
        rows: Seq<Seq<Seq<SpanModel>>>,
        current_row: Seq<Seq<SpanModel>>,
    },
    TableCell { spans: Seq<SpanModel> },
    Image { url: Seq<char>, alt: Seq<char> },
    HtmlBlock { content: Seq<char> },
}

/// The builder: its stack of open containers and the inline style.
pub struct BuilderModel {
    pub stack: Seq<ContextModel>,
    pub style: StyleModel,
}

/// The builder before any event: one empty root, no style.
pub open spec fn initial_builder() -> BuilderModel {
    BuilderModel {
        stack: seq![ContextModel::Root { blocks: Seq::empty() }],
        style: StyleModel { bold: false, italic: false, strikethrough: false, link_url: None },
    }
}

pub open spec fn top(b: BuilderModel) -> ContextModel {
    b.stack[b.stack.len() - 1]
}

/// The builder with its innermost container replaced.
pub open spec fn set_top(b: BuilderModel, c: ContextModel) -> BuilderModel {
    if b.stack.len() == 0 {
        b
    } else {
        BuilderModel { stack: b.stack.update(b.stack.len() - 1, c), style: b.style }
    }
}

/// The builder with a new innermost container.
pub open spec fn push_ctx(b: BuilderModel, c: ContextModel) -> BuilderModel {
    BuilderModel { stack: b.stack.push(c), style: b.style }
}

/// The builder without its innermost container.
pub open spec fn pop_ctx(b: BuilderModel) -> BuilderModel {
    if b.stack.len() == 0 {
        b
    } else {
        BuilderModel { stack: b.stack.subrange(0, b.stack.len() - 1), style: b.style }
    }
}

/// The innermost container, if any.
pub open spec fn popped(b: BuilderModel) -> Option<ContextModel> {
    if b.stack.len() == 0 {
        None
    } else {
        Some(top(b))
    }
}

/// A container after a finished block is added to it: roots, quotes and
/// list items keep it; every other container drops it.
pub open spec fn ctx_with_block(c: ContextModel, blk: BlockModel) -> ContextModel {
    match c {
        ContextModel::Root { blocks } => ContextModel::Root { blocks: blocks.push(blk) },
        ContextModel::BlockQuote { blocks } => ContextModel::BlockQuote { blocks: blocks.push(blk) },
        ContextModel::ListItem { spans, children } => ContextModel::ListItem {
            spans,
            children: children.push(blk),
        },
        _ => c,
    }
}

/// The builder after a finished block is added to its innermost container.
pub open spec fn add_block(b: BuilderModel, blk: BlockModel) -> BuilderModel {
    if b.stack.len() == 0 {
        b
    } else {
        set_top(b, ctx_with_block(top(b), blk))
    }
}

/// The span that text gets under the style in force.
pub open spec fn styled(style: StyleModel, text: Seq<char>, code: bool) -> SpanModel {
    SpanModel {
        text,
        style: InlineStyle {
            bold: style.bold,
            italic: style.italic,
            strikethrough: style.strikethrough,
            code,
        },
        link_url: style.link_url,
    }
}

/// A container after a span is added to it: headings, paragraphs, list items
/// and table cells keep it; every other container drops it.
pub open spec fn ctx_with_span(c: ContextModel, span: SpanModel) -> ContextModel {
    match c {
        ContextModel::Heading { level, spans } => ContextModel::Heading { level, spans: spans.push(span) },
        ContextModel::Paragraph { spans } => ContextModel::Paragraph { spans: spans.push(span) },
        ContextModel::ListItem { spans, children } => ContextModel::ListItem {
            spans: spans.push(span),
            children,
        },
        ContextModel::TableCell { spans } => ContextModel::TableCell { spans: spans.push(span) },
        _ => c,
    }
}

/// The builder after text is added under the style in force.
pub open spec fn add_span(b: BuilderModel, text: Seq<char>, code: bool) -> BuilderModel {
    if b.stack.len() == 0 {
        b
    } else {
        set_top(b, ctx_with_span(top(b), styled(b.style, text, code)))
    }
}

/// The builder with a new inline style.
pub open spec fn with_style(b: BuilderModel, style: StyleModel) -> BuilderModel {
    BuilderModel { stack: b.stack, style }
}

pub open spec fn set_italic(b: BuilderModel, on: bool) -> BuilderModel {
    with_style(b, StyleModel { italic: on, ..b.style })
}

pub open spec fn set_bold(b: BuilderModel, on: bool) -> BuilderModel {
    with_style(b, StyleModel { bold: on, ..b.style })
}

pub open spec fn set_strike(b: BuilderModel, on: bool) -> BuilderModel {
    with_style(b, StyleModel { strikethrough: on, ..b.style })
}

pub open spec fn set_link(b: BuilderModel, url: Option<Seq<char>>) -> BuilderModel {
    with_style(b, StyleModel { link_url: url, ..b.style })
}

/// The language of a code block: the first word of a fenced block's info
/// string, nothing when that is empty or the block is indented.
pub open spec fn code_lang(info: Option<Seq<char>>) -> Option<Seq<char>> {
    match info {
        Some(i) => {
            let w = first_word(i);
            if w.len() == 0 {
                None
            } else {
                Some(w)
            }
        },
        None => None,
    }
}

/// A code text without the final newline that the parser leaves in it.
pub open spec fn strip_final_newline(code: Seq<char>) -> Seq<char> {
    if code.len() > 0 && code[code.len() - 1] == '\n' {
        code.subrange(0, code.len() - 1)
    } else {
        code
    }
}

// ── Opening containers ──────────────────────────────────────────────────────
pub open spec fn open_tag(b: BuilderModel, tag: MdTag) -> BuilderModel {
    match tag {
        MdTag::Heading(level) => push_ctx(b, ContextModel::Heading { level, spans: Seq::empty() }),
        MdTag::Paragraph => push_ctx(b, ContextModel::Paragraph { spans: Seq::empty() }),
        MdTag::CodeBlock(info) => push_ctx(
            b,
            ContextModel::CodeBlock { lang: code_lang(opt_chars(info)), code: Seq::empty() },
        ),
        MdTag::BlockQuote => push_ctx(b, ContextModel::BlockQuote { blocks: Seq::empty() }),
        MdTag::List(start) => push_ctx(b, ContextModel::List { start, items: Seq::empty() }),
        MdTag::Item => push_ctx(
            b,
            ContextModel::ListItem { spans: Seq::empty(), children: Seq::empty() },
        ),
        MdTag::Table => push_ctx(
            b,
            ContextModel::Table {
                in_head: false,
                headers: Seq::empty(),
                rows: Seq::empty(),
                current_row: Seq::empty(),
            },
        ),
        MdTag::TableHead => if b.stack.len() > 0 {
            match top(b) {
                ContextModel::Table { headers, rows, current_row, .. } => set_top(
                    b,
                    ContextModel::Table { in_head: true, headers, rows, current_row },
                ),
                _ => b,
            }
        } else {
            b
        },
        MdTag::TableCell => push_ctx(b, ContextModel::TableCell { spans: Seq::empty() }),
        MdTag::Emphasis => set_italic(b, true),
        MdTag::Strong => set_bold(b, true),
        MdTag::Strikethrough => set_strike(b, true),
        MdTag::Link(url) => set_link(b, Some(url@)),
        MdTag::Image(url) => push_ctx(b, ContextModel::Image { url: url@, alt: Seq::empty() }),
        MdTag::HtmlBlock => push_ctx(b, ContextModel::HtmlBlock { content: Seq::empty() }),
        MdTag::TableRow | MdTag::Other => b,
    }
}

// ── Closing containers ──────────────────────────────────────────────────────
/// Closing an image: the image leaves its container; when that container is
/// a paragraph, the paragraph is closed first (kept only if it has text) and
/// the image goes to the paragraph's own container.
pub open spec fn close_image(b: BuilderModel) -> BuilderModel {
    let b1 = pop_ctx(b);
    match popped(b) {
        Some(ContextModel::Image { url, alt }) => {
            let b2 = if b1.stack.len() > 0 && top(b1) is Paragraph {
                let b3 = pop_ctx(b1);
                match popped(b1) {
                    Some(ContextModel::Paragraph { spans }) => if spans.len() > 0 {
                        add_block(b3, BlockModel::Paragraph { spans })
                    } else {
                        b3
                    },
                    _ => b3,
                }
            } else {
                b1
            };
            add_block(b2, BlockModel::Image { alt, url })
        },
        _ => b1,
    }
}

/// Closing a paragraph: inside a list item that has no text and no children
/// yet, its spans become the item's text; elsewhere it becomes a paragraph
/// block when it has text. Nothing happens when the innermost container is
/// not a paragraph (an image closed it already).
pub open spec fn close_paragraph(b: BuilderModel) -> BuilderModel {
    if b.stack.len() == 0 || !(top(b) is Paragraph) {
        b
    } else {
        let spans = top(b)->Paragraph_spans;
        let b1 = pop_ctx(b);
        if b1.stack.len() == 0 {
            b1
        } else {
            match top(b1) {
                ContextModel::ListItem {
                    spans: item_spans,
                    children,
                } => if item_spans.len() == 0 && children.len() == 0 {
                    set_top(b1, ContextModel::ListItem { spans, children })
                } else if spans.len() > 0 {
                    add_block(b1, BlockModel::Paragraph { spans })
                } else {
                    b1
                },
                _ => if spans.len() > 0 {
                    add_block(b1, BlockModel::Paragraph { spans })
                } else {
                    b1
                },
            }
        }
    }
}

pub open spec fn close_tag(b: BuilderModel, tag: MdTagEnd) -> BuilderModel {
    let b1 = pop_ctx(b);
    match tag {
        MdTagEnd::Heading => match popped(b) {
            Some(ContextModel::Heading { level, spans }) => add_block(
                b1,
                BlockModel::Heading { level, spans, id: None },
            ),
            _ => b1,
        },
        MdTagEnd::Paragraph => close_paragraph(b),
        MdTagEnd::CodeBlock => match popped(b) {
            Some(ContextModel::CodeBlock { lang, code }) => add_block(
                b1,
                BlockModel::CodeBlock { lang, code: strip_final_newline(code) },
            ),
            _ => b1,
        },
        MdTagEnd::BlockQuote => match popped(b) {
            Some(ContextModel::BlockQuote { blocks }) => add_block(
                b1,
                BlockModel::BlockQuote { blocks },
            ),
            _ => b1,
        },
        MdTagEnd::List(ordered) => match popped(b) {
            Some(ContextModel::List { start, items }) => add_block(
                b1,
                BlockModel::List { ordered, start, items },
            ),
            _ => b1,
        },
        MdTagEnd::Item => match popped(b) {
            Some(ContextModel::ListItem { spans, children }) => if b1.stack.len() > 0 {
                match top(b1) {
                    ContextModel::List { start, items } => set_top(
                        b1,
                        ContextModel::List {
                            start,
                            items: items.push(ItemModel { spans, children }),
                        },
                    ),
                    _ => b1,
                }
            } else {
                b1
            },
            _ => b1,
        },
        MdTagEnd::TableCell => match popped(b) {
            Some(ContextModel::TableCell { spans }) => if b1.stack.len() > 0 {
                match top(b1) {
                    ContextModel::Table { in_head, headers, rows, current_row } => set_top(
                        b1,
                        ContextModel::Table {
                            in_head,
                            headers,
                            rows,
                            current_row: current_row.push(spans),
                        },
                    ),
                    _ => b1,
                }
            } else {
                b1
            },
            _ => b1,
        },
        MdTagEnd::TableHead => if b.stack.len() > 0 {
            match top(b) {
                ContextModel::Table { rows, current_row, .. } => set_top(
                    b,
                    ContextModel::Table {
                        in_head: false,
                        headers: current_row,
                        rows,
                        current_row: Seq::empty(),
                    },
                ),
                _ => b,
            }
        } else {
            b
        },
        MdTagEnd::TableRow => if b.stack.len() > 0 {
            match top(b) {
                ContextModel::Table { in_head, headers, rows, current_row } => if !in_head {
                    set_top(
                        b,
                        ContextModel::Table {
                            in_head,
                            headers,
                            rows: rows.push(current_row),
                            current_row: Seq::empty(),
                        },
                    )
                } else {
                    b
                },
                _ => b,
            }
        } else {
            b
        },
        MdTagEnd::Table => match popped(b) {
            Some(ContextModel::Table { headers, rows, .. }) => add_block(
                b1,
                BlockModel::Table { headers, rows },
            ),
            _ => b1,
        },
        MdTagEnd::HtmlBlock => match popped(b) {
            Some(ContextModel::HtmlBlock { content }) => match html_block(content) {
                Some(blk) => add_block(b1, blk),
                None => b1,
            },
            _ => b1,
        },
        MdTagEnd::Image => close_image(b),
        MdTagEnd::Emphasis => set_italic(b, false),
        MdTagEnd::Strong => set_bold(b, false),
        MdTagEnd::Strikethrough => set_strike(b, false),
        MdTagEnd::Link => set_link(b, None),
        MdTagEnd::Other => b,
    }
}

// ── Text ────────────────────────────────────────────────────────────────────
/// Text goes into an open code block or image alt text as it is; anywhere
/// else it becomes a span under the style in force.
pub open spec fn add_text(b: BuilderModel, text: Seq<char>) -> BuilderModel {
    if b.stack.len() == 0 {
        b
    } else {
        match top(b) {
            ContextModel::CodeBlock { lang, code } => set_top(
                b,
                ContextModel::CodeBlock { lang, code: code + text },
            ),
            ContextModel::Image { url, alt } => set_top(b, ContextModel::Image { url, alt: alt + text }),
            _ => add_span(b, text, false),
        }
    }
}

/// HTML text goes into an open HTML block; anywhere else it is dropped.
pub open spec fn add_html(b: BuilderModel, text: Seq<char>) -> BuilderModel {
    if b.stack.len() == 0 {
        b
    } else {
        match top(b) {
            ContextModel::HtmlBlock { content } => set_top(
                b,
                ContextModel::HtmlBlock { content: content + text },
            ),
            _ => b,
        }
    }
}

pub open spec fn inline_html(b: BuilderModel, tag: Seq<char>) -> BuilderModel {
    match inline_html_effect(tag) {
        HtmlEffect::Italic(on) => set_italic(b, on),
        HtmlEffect::Bold(on) => set_bold(b, on),
        HtmlEffect::Strike(on) => set_strike(b, on),
        HtmlEffect::LineBreak => add_span(b, seq!['\n'], false),
        HtmlEffect::Ignore => b,
    }
}

/// The builder after one event.
pub open spec fn step(b: BuilderModel, e: MdEvent) -> BuilderModel {
    match e {
        MdEvent::Start(tag) => open_tag(b, tag),
        MdEvent::End(tag) => close_tag(b, tag),
        MdEvent::Text(t) => add_text(b, t@),
        MdEvent::Code(t) => add_span(b, t@, true),
        MdEvent::Html(t) => add_html(b, t@),
        MdEvent::InlineHtml(t) => inline_html(b, t@),
        MdEvent::SoftBreak => add_span(b, seq![' '], false),
        MdEvent::HardBreak => add_span(b, seq!['\n'], false),
        MdEvent::Rule => add_block(b, BlockModel::ThematicBreak),
        MdEvent::Other => b,
    }
}

/// The builder after a run of events.
pub open spec fn run(b: BuilderModel, events: Seq<MdEvent>) -> BuilderModel
    decreases events.len(),
{
    if events.len() == 0 {
        b
    } else {
        step(run(b, events.subrange(0, events.len() - 1)), events[events.len() - 1])
    }
}

/// The finished document: the blocks of the root, when the root is what is
/// left at the end; nothing otherwise.
pub open spec fn finish(b: BuilderModel) -> Seq<BlockModel> {
    match popped(b) {
        Some(ContextModel::Root { blocks }) => blocks,
        _ => Seq::empty(),
    }
}

/// The document that a stream of Markdown events describes.
pub open spec fn document(events: Seq<MdEvent>) -> Seq<BlockModel> {
    finish(run(initial_builder(), events))
}

// ── Laws ────────────────────────────────────────────────────────────────────
/// Opening an inline tag turns on the style it names (emphasis italic,
/// strong bold, strikethrough struck, a link its URL) and closing it turns
/// that style off; neither touches the other styles or the open containers.
pub proof fn law_inline_tags_switch_their_style(b: BuilderModel, url: String)
    ensures
        step(b, MdEvent::Start(MdTag::Emphasis)).style
            == (StyleModel { italic: true, ..b.style }),
        step(b, MdEvent::Start(MdTag::Strong)).style
            == (StyleModel { bold: true, ..b.style }),
        step(b, MdEvent::Start(MdTag::Strikethrough)).style
            == (StyleModel { strikethrough: true, ..b.style }),
        step(b, MdEvent::Start(MdTag::Link(url))).style
            == (StyleModel { link_url: Some(url@), ..b.style }),
        step(b, MdEvent::End(MdTagEnd::Emphasis)).style
            == (StyleModel { italic: false, ..b.style }),
        step(b, MdEvent::End(MdTagEnd::Strong)).style
            == (StyleModel { bold: false, ..b.style }),
        step(b, MdEvent::End(MdTagEnd::Strikethrough)).style
            == (StyleModel { strikethrough: false, ..b.style }),
        step(b, MdEvent::End(MdTagEnd::Link)).style
            == (StyleModel { link_url: None, ..b.style }),
        step(b, MdEvent::Start(MdTag::Emphasis)).stack == b.stack,
        step(b, MdEvent::Start(MdTag::Strong)).stack == b.stack,
        step(b, MdEvent::Start(MdTag::Strikethrough)).stack == b.stack,
        step(b, MdEvent::Start(MdTag::Link(url))).stack == b.stack,
        step(b, MdEvent::End(MdTagEnd::Emphasis)).stack == b.stack,
        step(b, MdEvent::End(MdTagEnd::Strong)).stack == b.stack,
        step(b, MdEvent::End(MdTagEnd::Strikethrough)).stack == b.stack,
        step(b, MdEvent::End(MdTagEnd::Link)).stack == b.stack,
{
}

/// Text in a paragraph becomes its last span, with the text as given and
/// the style in force: after a strikethrough start the span is struck,
/// after an emphasis start italic, after a strong start bold. Inline code
/// becomes a code span; a soft break a space and a hard break a newline.
pub proof fn law_paragraph_text_takes_the_style(b: BuilderModel, t: String)
    requires
        b.stack.len() > 0,
        top(b) is Paragraph,
    ensures
        ({
            let after = step(b, MdEvent::Text(t));
            &&& after.stack.len() == b.stack.len()
            &&& top(after) is Paragraph
            &&& top(after)->Paragraph_spans == top(b)->Paragraph_spans.push(SpanModel {
                text: t@,
                style: InlineStyle {
                    bold: b.style.bold,
                    italic: b.style.italic,
                    strikethrough: b.style.strikethrough,
                    code: false,
                },
                link_url: b.style.link_url,
            })
        }),
        ({
            let after = step(step(b, MdEvent::Start(MdTag::Strikethrough)), MdEvent::Text(t));
            let last = top(after)->Paragraph_spans.last();
            &&& top(after) is Paragraph
            &&& last.text == t@
            &&& last.style.strikethrough
        }),
        ({
            let after = step(step(b, MdEvent::Start(MdTag::Emphasis)), MdEvent::Text(t));
            let last = top(after)->Paragraph_spans.last();
            &&& top(after) is Paragraph
            &&& last.text == t@
            &&& last.style.italic
        }),
        ({
            let after = step(step(b, MdEvent::Start(MdTag::Strong)), MdEvent::Text(t));
            let last = top(after)->Paragraph_spans.last();
            &&& top(after) is Paragraph
            &&& last.text == t@
            &&& last.style.bold
        }),
        ({
            let last = top(step(b, MdEvent::Code(t)))->Paragraph_spans.last();
            &&& top(step(b, MdEvent::Code(t))) is Paragraph
            &&& last.text == t@ && last.style.code
            &&& last.style.bold == b.style.bold && last.style.italic == b.style.italic
        }),
        top(step(b, MdEvent::SoftBreak))->Paragraph_spans.last().text == seq![' '],
        top(step(b, MdEvent::HardBreak))->Paragraph_spans.last().text == seq!['\n'],
{
}

} // verus!
