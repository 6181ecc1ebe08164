//! Markdown to blocks: the event stream of the CommonMark parser is folded
//! into a list of blocks by a stack of open containers.

use vstd::prelude::*;
use crate::blocks::{
    Block, BlockModel, HeadingLevel, InlineStyle, ItemModel, ListItem, SpanModel, StyledSpan, block_model, blocks_model,
    cells_model, items_model, lemma_blocks_model_len, lemma_blocks_model_push, lemma_items_model_push, rows_model,
    span_model, spans_model,
};
use crate::doc_model::{
    BuilderModel, ContextModel, HtmlEffect, StyleModel, add_block, add_span, add_html, add_text,
    close_tag, ctx_with_block, ctx_with_span, document, finish, html_block, initial_builder,
    open_tag, plain_span, strip_final_newline, pop_ctx, popped, push_ctx, run, set_top, step, strip_tags_from, top,
};
use crate::markdown::{markdown_event_stream, markdown_events, MdEvent, MdTag, MdTagEnd, MARKDOWN_OPTIONS};
use crate::text::{
    chars_equal, chars_of, copy_opt_string, copy_range, copy_string, push_char, find_chars, first_word_chars,
    lemma_find_from_found, opt_chars, starts_with_chars, string_of, trim_chars,
};

verus! {

/// Tracks the current inline style state (toggles on Start/End of emphasis, strong, etc.)
struct StyleState {
    bold: bool,
    italic: bool,
    strikethrough: bool,
    link_url: Option<String>,
}

impl View for StyleState {
    type V = StyleModel;

    closed spec fn view(&self) -> StyleModel {
        StyleModel {
            bold: self.bold,
            italic: self.italic,
            strikethrough: self.strikethrough,
            link_url: opt_chars(self.link_url),
        }
    }
}

impl StyleState {
    fn to_inline_style(&self) -> (s: InlineStyle)
        ensures
            s == (InlineStyle {
                bold: self.bold,
                italic: self.italic,
                strikethrough: self.strikethrough,
                code: false,
            }),
    {
        InlineStyle {
            bold: self.bold,
            italic: self.italic,
            strikethrough: self.strikethrough,
            code: false,
        }
    }
}

/// Represents a container context on the parsing stack
enum Context {
    Root { blocks: Vec<Block> },
    Heading { level: HeadingLevel, spans: Vec<StyledSpan> },
    Paragraph { spans: Vec<StyledSpan> },
    CodeBlock { lang: Option<String>, code: String },
    BlockQuote { blocks: Vec<Block> },
    List { start: Option<u64>, items: Vec<ListItem> },
    ListItem { spans: Vec<StyledSpan>, children: Vec<Block> },
    Table {
        in_head: bool,
        headers: Vec<Vec<StyledSpan>>,
        rows: Vec<Vec<Vec<StyledSpan>>>,
        current_row: Vec<Vec<StyledSpan>>,
    },
    TableCell { spans: Vec<StyledSpan> },
    Image { url: String, alt: String },
    HtmlBlock { content: String },
}

impl View for Context {
    type V = ContextModel;

    closed spec fn view(&self) -> ContextModel {
        match *self {
            Context::Root { blocks } => ContextModel::Root { blocks: blocks_model(blocks@) },
            Context::Heading { level, spans } => ContextModel::Heading {
                level,
                spans: spans_model(spans@),
            },
            Context::Paragraph { spans } => ContextModel::Paragraph { spans: spans_model(spans@) },
            Context::CodeBlock { lang, code } => ContextModel::CodeBlock {
                lang: opt_chars(lang),
                code: code@,
            },
            Context::BlockQuote { blocks } => ContextModel::BlockQuote {
                blocks: blocks_model(blocks@),
            },
            Context::List { start, items } => ContextModel::List {
                start,
                items: items_model(items@),
            },
            Context::ListItem { spans, children } => ContextModel::ListItem {
                spans: spans_model(spans@),
                children: blocks_model(children@),
            },
            Context::Table { in_head, headers, rows, current_row } => ContextModel::Table {
                in_head,
                headers: cells_model(headers@),
                rows: rows_model(rows@),
                current_row: cells_model(current_row@),
            },
            Context::TableCell { spans } => ContextModel::TableCell { spans: spans_model(spans@) },
            Context::Image { url, alt } => ContextModel::Image { url: url@, alt: alt@ },
            Context::HtmlBlock { content } => ContextModel::HtmlBlock { content: content@ },
        }
    }
}

proof fn lemma_empty_models()
    ensures
        spans_model(Seq::<StyledSpan>::empty()) == Seq::<SpanModel>::empty(),
        cells_model(Seq::<Vec<StyledSpan>>::empty()) == Seq::<Seq<SpanModel>>::empty(),
        rows_model(Seq::<Vec<Vec<StyledSpan>>>::empty()) == Seq::<Seq<Seq<SpanModel>>>::empty(),
        blocks_model(Seq::<Block>::empty()) == Seq::<BlockModel>::empty(),
        items_model(Seq::<ListItem>::empty()) == Seq::<ItemModel>::empty(),
{
    assert(spans_model(Seq::<StyledSpan>::empty()) =~= Seq::<SpanModel>::empty());
    assert(cells_model(Seq::<Vec<StyledSpan>>::empty()) =~= Seq::<Seq<SpanModel>>::empty());
    assert(rows_model(Seq::<Vec<Vec<StyledSpan>>>::empty()) =~= Seq::<Seq<Seq<SpanModel>>>::empty());
}

proof fn lemma_spans_push(s: Seq<StyledSpan>, x: StyledSpan)
    ensures
        spans_model(s.push(x)) == spans_model(s).push(span_model(x)),
{
    assert(spans_model(s.push(x)) =~= spans_model(s).push(span_model(x)));
}

proof fn lemma_cells_push(s: Seq<Vec<StyledSpan>>, x: Vec<StyledSpan>)
    ensures
        cells_model(s.push(x)) == cells_model(s).push(spans_model(x@)),
{
    assert(cells_model(s.push(x)) =~= cells_model(s).push(spans_model(x@)));
}

proof fn lemma_rows_push(s: Seq<Vec<Vec<StyledSpan>>>, x: Vec<Vec<StyledSpan>>)
    ensures
        rows_model(s.push(x)) == rows_model(s).push(cells_model(x@)),
{
    assert(rows_model(s.push(x)) =~= rows_model(s).push(cells_model(x@)));
}

impl Context {
    /// Adds a finished block to a root, quote or list item; other containers drop it.
    fn push_block(self, block: Block) -> (c: Context)
        ensures
            c@ == ctx_with_block(self@, block@),
    {
        match self {
            Context::Root { mut blocks } => {
                proof {
                    lemma_blocks_model_push(blocks@, block);
                }
                blocks.push(block);
                Context::Root { blocks }
            },
            Context::BlockQuote { mut blocks } => {
                proof {
                    lemma_blocks_model_push(blocks@, block);
                }
                blocks.push(block);
                Context::BlockQuote { blocks }
            },
            Context::ListItem { spans, mut children } => {
                proof {
                    lemma_blocks_model_push(children@, block);
                }
                children.push(block);
                Context::ListItem { spans, children }
            },
            other => other,
        }
    }

    /// Adds a paragraph of the spans when there are any.
    fn push_spans_as_paragraph(self, spans: Vec<StyledSpan>) -> (c: Context)
        ensures
            c@ == (if spans@.len() > 0 {
                ctx_with_block(self@, BlockModel::Paragraph { spans: spans_model(spans@) })
            } else {
                self@
            }),
    {
        if spans.len() > 0 {
            self.push_block(Block::Paragraph { spans })
        } else {
            self
        }
    }

    /// Adds a span to a heading, paragraph, list item or table cell; other containers drop it.
    fn push_span(self, span: StyledSpan) -> (c: Context)
        ensures
            c@ == ctx_with_span(self@, span@),
    {
        match self {
            Context::Heading { level, mut spans } => {
                proof {
                    lemma_spans_push(spans@, span);
                }
                spans.push(span);
                Context::Heading { level, spans }
            },
            Context::Paragraph { mut spans } => {
                proof {
                    lemma_spans_push(spans@, span);
                }
                spans.push(span);
                Context::Paragraph { spans }
            },
            Context::ListItem { mut spans, children } => {
                proof {
                    lemma_spans_push(spans@, span);
                }
                spans.push(span);
                Context::ListItem { spans, children }
            },
            Context::TableCell { mut spans } => {
                proof {
                    lemma_spans_push(spans@, span);
                }
                spans.push(span);
                Context::TableCell { spans }
            },
            other => other,
        }
    }
}

// ── HTML blocks and inline HTML ────────────────────────────────────────────
/// Strip HTML tags from a string, keeping only text content.
fn strip_html_tags(html: &Vec<char>) -> (r: Vec<char>)
    ensures
        r@ == crate::doc_model::strip_html_tags(html@),
{
    let mut result: Vec<char> = Vec::new();
    let mut in_tag = false;
    let mut i: usize = 0;
    assert(html@.subrange(0, html.len() as int) =~= html@);
    assert(result@ + strip_tags_from(html@, false) =~= strip_tags_from(html@, false));
    while i < html.len()
        invariant
            i <= html.len(),
            result@ + strip_tags_from(html@.subrange(i as int, html.len() as int), in_tag)
                == strip_tags_from(html@, false),
        decreases html.len() - i,
    {
        let ch = html[i];
        proof {
            let t = html@.subrange(i as int, html.len() as int);
            assert(t[0] == ch);
            assert(t.subrange(1, t.len() as int) =~= html@.subrange(i + 1, html.len() as int));
        }
        if ch == '<' {
            in_tag = true;
        } else if ch == '>' {
            in_tag = false;
        } else if !in_tag {
            let ghost before = result@;
            result.push(ch);
            proof {
                assert(before + (seq![ch] + strip_tags_from(
                    html@.subrange(i + 1, html.len() as int),
                    in_tag,
                )) =~= result@ + strip_tags_from(html@.subrange(i + 1, html.len() as int), in_tag));
            }
        }
        i = i + 1;
    }
    assert(html@.subrange(0, html.len() as int) =~= html@);
    assert(result@ + strip_tags_from(html@.subrange(i as int, html.len() as int), in_tag) =~= result@);
    trim_chars(&result)
}

/// The heading level that a digit names.
fn heading_digit(c: char) -> (r: Option<HeadingLevel>)
    ensures
        r == crate::doc_model::heading_digit(c),
{
    if c == '1' {
        Some(HeadingLevel::H1)
    } else if c == '2' {
        Some(HeadingLevel::H2)
    } else if c == '3' {
        Some(HeadingLevel::H3)
    } else if c == '4' {
        Some(HeadingLevel::H4)
    } else if c == '5' {
        Some(HeadingLevel::H5)
    } else if c == '6' {
        Some(HeadingLevel::H6)
    } else {
        None
    }
}

/// A single unstyled span.
fn plain_spans(text: &Vec<char>) -> (r: Vec<StyledSpan>)
    ensures
        spans_model(r@) == seq![plain_span(text@)],
{
    let mut r: Vec<StyledSpan> = Vec::new();
    r.push(
        StyledSpan {
            text: string_of(text.as_slice()),
            style: InlineStyle { bold: false, italic: false, strikethrough: false, code: false },
            link_url: None,
        },
    );
    assert(spans_model(r@) =~= seq![plain_span(text@)]);
    r
}

/// The value of the first `id="..."` attribute.
fn html_id(t: &Vec<char>) -> (r: Option<String>)
    ensures
        opt_chars(r) == crate::doc_model::html_id(t@),
{
    let pat = vec!['i', 'd', '=', '"'];
    assert(pat@ =~= seq!['i', 'd', '=', '"']);
    match find_chars(t, &pat, 0) {
        Some(i) => {
            proof {
                lemma_find_from_found(t@, pat@, 0, i as int);
                assert(pat@.len() == 4);
                assert(i + 4 <= t.len());
            }
            let rest = copy_range(t, i + 4, t.len());
            let quote = vec!['"'];
            assert(quote@ =~= seq!['"']);
            match find_chars(&rest, &quote, 0) {
                Some(e) => {
                    proof {
                        lemma_find_from_found(rest@, quote@, 0, e as int);
                    }
                    let id = copy_range(&rest, 0, e);
                    Some(string_of(id.as_slice()))
                },
                None => None,
            }
        },
        None => None,
    }
}

/// A heading read from a trimmed `<hN ...>text</hN>` block.
fn html_heading(t: &Vec<char>) -> (r: Option<Block>)
    ensures
        match r {
            Some(b) => crate::doc_model::html_heading(t@) == Some(b@),
            None => crate::doc_model::html_heading(t@) is None,
        },
{
    let open_h = vec!['<', 'h'];
    assert(open_h@ =~= seq!['<', 'h']);
    if !starts_with_chars(t, &open_h) || t.len() <= 2 {
        return None;
    }
    let level = match heading_digit(t[2]) {
        Some(level) => level,
        None => return None,
    };
    let gt = vec!['>'];
    assert(gt@ =~= seq!['>']);
    let close_h = vec!['<', '/', 'h'];
    assert(close_h@ =~= seq!['<', '/', 'h']);
    let start = find_chars(t, &gt, 0);
    let end = find_chars(t, &close_h, 0);
    match (start, end) {
        (Some(s), Some(e)) => {
            proof {
                lemma_find_from_found(t@, gt@, 0, s as int);
                lemma_find_from_found(t@, close_h@, 0, e as int);
            }
            if s + 1 <= e {
                let inner = copy_range(t, s + 1, e);
                let text = strip_html_tags(&inner);
                if text.len() > 0 {
                    let id = html_id(t);
                    let spans = plain_spans(&text);
                    Some(Block::Heading { level, spans, id })
                } else {
                    None
                }
            } else {
                None
            }
        },
        _ => None,
    }
}

/// Parse an HTML block into a Block. Handles heading tags and strips other HTML to paragraphs.
fn parse_html_block(html: &String) -> (r: Option<Block>)
    ensures
        match r {
            Some(b) => html_block(html@) == Some(b@),
            None => html_block(html@) is None,
        },
{
    let chars = chars_of(html.as_str());
    let t = trim_chars(&chars);
    if t.len() == 0 {
        return None;
    }
    match html_heading(&t) {
        Some(b) => Some(b),
        None => {
            let text = strip_html_tags(&t);
            if text.len() == 0 {
                None
            } else {
                Some(Block::Paragraph { spans: plain_spans(&text) })
            }
        },
    }
}

/// What an inline HTML tag does to the text that follows it.
fn inline_html_effect(html: &String) -> (r: HtmlEffect)
    ensures
        r == crate::doc_model::inline_html_effect(html@),
{
    let chars = chars_of(html.as_str());
    let t = trim_chars(&chars);
    let em = vec!['<', 'e', 'm', '>'];
    let i = vec!['<', 'i', '>'];
    let em_end = vec!['<', '/', 'e', 'm', '>'];
    let i_end = vec!['<', '/', 'i', '>'];
    let strong = vec!['<', 's', 't', 'r', 'o', 'n', 'g', '>'];
    let b = vec!['<', 'b', '>'];
    let strong_end = vec!['<', '/', 's', 't', 'r', 'o', 'n', 'g', '>'];
    let b_end = vec!['<', '/', 'b', '>'];
    let del = vec!['<', 'd', 'e', 'l', '>'];
    let s = vec!['<', 's', '>'];
    let del_end = vec!['<', '/', 'd', 'e', 'l', '>'];
    let s_end = vec!['<', '/', 's', '>'];
    let br = vec!['<', 'b', 'r', '>'];
    let br2 = vec!['<', 'b', 'r', '/', '>'];
    let br3 = vec!['<', 'b', 'r', ' ', '/', '>'];
    assert(em@ =~= seq!['<', 'e', 'm', '>']);
    assert(i@ =~= seq!['<', 'i', '>']);
    assert(em_end@ =~= seq!['<', '/', 'e', 'm', '>']);
    assert(i_end@ =~= seq!['<', '/', 'i', '>']);
    assert(strong@ =~= seq!['<', 's', 't', 'r', 'o', 'n', 'g', '>']);
    assert(b@ =~= seq!['<', 'b', '>']);
    assert(strong_end@ =~= seq!['<', '/', 's', 't', 'r', 'o', 'n', 'g', '>']);
    assert(b_end@ =~= seq!['<', '/', 'b', '>']);
    assert(del@ =~= seq!['<', 'd', 'e', 'l', '>']);
    assert(s@ =~= seq!['<', 's', '>']);
    assert(del_end@ =~= seq!['<', '/', 'd', 'e', 'l', '>']);
    assert(s_end@ =~= seq!['<', '/', 's', '>']);
    assert(br@ =~= seq!['<', 'b', 'r', '>']);
    assert(br2@ =~= seq!['<', 'b', 'r', '/', '>']);
    assert(br3@ =~= seq!['<', 'b', 'r', ' ', '/', '>']);
    if chars_equal(&t, &em) || chars_equal(&t, &i) {
        HtmlEffect::Italic(true)
    } else if chars_equal(&t, &em_end) || chars_equal(&t, &i_end) {
        HtmlEffect::Italic(false)
    } else if chars_equal(&t, &strong) || chars_equal(&t, &b) {
        HtmlEffect::Bold(true)
    } else if chars_equal(&t, &strong_end) || chars_equal(&t, &b_end) {
        HtmlEffect::Bold(false)
    } else if chars_equal(&t, &del) || chars_equal(&t, &s) {
        HtmlEffect::Strike(true)
    } else if chars_equal(&t, &del_end) || chars_equal(&t, &s_end) {
        HtmlEffect::Strike(false)
    } else if chars_equal(&t, &br) || chars_equal(&t, &br2) || chars_equal(&t, &br3) {
        HtmlEffect::LineBreak
    } else {
        HtmlEffect::Ignore
    }
}

struct DocBuilder {
    stack: Vec<Context>,
    style: StyleState,
}

impl View for DocBuilder {
    type V = BuilderModel;

    closed spec fn view(&self) -> BuilderModel {
        BuilderModel { stack: self.stack@.map_values(|c: Context| c@), style: self.style@ }
    }
}

/// Putting the innermost container back unchanged leaves the builder as it was.
proof fn lemma_set_top_same(b: BuilderModel)
    requires
        b.stack.len() > 0,
    ensures
        set_top(b, top(b)) == b,
{
    assert(set_top(b, top(b)).stack =~= b.stack);
}

impl DocBuilder {
    fn new() -> (d: Self)
        ensures
            d@ == initial_builder(),
    {
        let mut stack: Vec<Context> = Vec::new();
        stack.push(Context::Root { blocks: Vec::new() });
        let d = DocBuilder {
            stack,
            style: StyleState { bold: false, italic: false, strikethrough: false, link_url: None },
        };
        assert(d@.stack =~= initial_builder().stack);
        d
    }

    /// Removes the innermost container.
    fn pop(&mut self) -> (c: Option<Context>)
        ensures
            final(self)@ == pop_ctx(old(self)@),
            match c {
                Some(ctx) => popped(old(self)@) == Some(ctx@),
                None => popped(old(self)@) is None,
            },
    {
        let c = self.stack.pop();
        proof {
            assert(self@.stack =~= pop_ctx(old(self)@).stack);
        }
        c
    }

    /// Opens a new innermost container.
    fn push(&mut self, c: Context)
        ensures
            final(self)@ == push_ctx(old(self)@, c@),
    {
        self.stack.push(c);
        proof {
            assert(self@.stack =~= push_ctx(old(self)@, c@).stack);
        }
    }

    /// Takes the innermost container out, to be put back with `put_back`.
    fn take_top(&mut self) -> (c: Context)
        requires
            old(self).stack.len() > 0,
        ensures
            c@ == top(old(self)@),
            final(self).stack@ == old(self).stack@.drop_last(),
            final(self).style == old(self).style,
    {
        self.stack.pop().unwrap()
    }

    /// Puts an innermost container back in place.
    fn put_back(&mut self, c: Context, Ghost(before): Ghost<BuilderModel>)
        requires
            before.stack.len() > 0,
            old(self)@.stack == before.stack.drop_last(),
            old(self)@.style == before.style,
        ensures
            final(self)@ == set_top(before, c@),
    {
        self.stack.push(c);
        proof {
            let n = before.stack.len();
            assert(self.stack@ == old(self).stack@.push(c));
            assert(old(self)@.stack.len() == n - 1);
            assert(old(self).stack@.len() == n - 1);
            assert(self@.stack.len() == n);
            assert(self@.stack[n - 1] == c@);
            assert forall|i: int| 0 <= i < n implies self@.stack[i] == set_top(before, c@).stack[i] by {
                if i < n - 1 {
                    assert(old(self)@.stack[i] == before.stack.drop_last()[i]);
                    assert(self.stack@[i] == old(self).stack@[i]);
                }
            }
            assert(self@.stack =~= set_top(before, c@).stack);
        }
    }

    /// Whether the innermost container is a paragraph.
    fn top_is_paragraph(&self) -> (r: bool)
        ensures
            r == (self@.stack.len() > 0 && top(self@) is Paragraph),
    {
        let n = self.stack.len();
        if n == 0 {
            false
        } else {
            match &self.stack[n - 1] {
                Context::Paragraph { .. } => true,
                _ => false,
            }
        }
    }

    /// Adds a finished block to the innermost container.
    fn add_block(&mut self, block: Block)
        ensures
            final(self)@ == add_block(old(self)@, block@),
    {
        if self.stack.len() > 0 {
            let ghost before = self@;
            let top = self.take_top();
            proof {
                assert(self@.stack =~= before.stack.drop_last());
            }
            let top = top.push_block(block);
            self.put_back(top, Ghost(before));
        }
    }

    /// Adds text as a span under the current style.
    fn push_span(&mut self, text: String, code: bool)
        ensures
            final(self)@ == add_span(old(self)@, text@, code),
    {
        if self.stack.len() > 0 {
            let ghost before = self@;
            let style = self.style.to_inline_style();
            let span = StyledSpan {
                text,
                style: InlineStyle { code, ..style },
                link_url: copy_opt_string(&self.style.link_url),
            };
            let top = self.take_top();
            proof {
                assert(self@.stack =~= before.stack.drop_last());
            }
            let top = top.push_span(span);
            self.put_back(top, Ghost(before));
        }
    }

    fn open(&mut self, tag: MdTag)
        ensures
            final(self)@ == open_tag(old(self)@, tag),
    {
        proof {
            lemma_empty_models();
        }
        match tag {
            MdTag::Heading(level) => self.push(Context::Heading { level, spans: Vec::new() }),
            MdTag::Paragraph => self.push(Context::Paragraph { spans: Vec::new() }),
            MdTag::CodeBlock(info) => {
                let lang = match info {
                    Some(info) => {
                        let chars = chars_of(info.as_str());
                        let word = first_word_chars(&chars);
                        if word.len() == 0 {
                            None
                        } else {
                            Some(string_of(word.as_slice()))
                        }
                    },
                    None => None,
                };
                self.push(Context::CodeBlock { lang, code: String::new() });
            },
            MdTag::BlockQuote => self.push(Context::BlockQuote { blocks: Vec::new() }),
            MdTag::List(start) => self.push(Context::List { start, items: Vec::new() }),
            MdTag::Item => self.push(Context::ListItem { spans: Vec::new(), children: Vec::new() }),
            MdTag::Table => self.push(
                Context::Table {
                    in_head: false,
                    headers: Vec::new(),
                    rows: Vec::new(),
                    current_row: Vec::new(),
                },
            ),
            MdTag::TableHead => {
                if self.stack.len() > 0 {
                    let ghost before = self@;
                    let t = self.take_top();
                    proof {
                        assert(self@.stack =~= before.stack.drop_last());
                    }
                    let t = match t {
                        Context::Table { headers, rows, current_row, .. } => Context::Table {
                            in_head: true,
                            headers,
                            rows,
                            current_row,
                        },
                        other => other,
                    };
                    self.put_back(t, Ghost(before));
                    proof {
                        lemma_set_top_same(before);
                    }
                }
            },
            MdTag::TableCell => self.push(Context::TableCell { spans: Vec::new() }),
            MdTag::Emphasis => {
                self.style.italic = true;
                assert(self@.stack =~= old(self)@.stack);
            },
            MdTag::Strong => {
                self.style.bold = true;
                assert(self@.stack =~= old(self)@.stack);
            },
            MdTag::Strikethrough => {
                self.style.strikethrough = true;
                assert(self@.stack =~= old(self)@.stack);
            },
            MdTag::Link(url) => {
                self.style.link_url = Some(url);
                assert(self@.stack =~= old(self)@.stack);
            },
            MdTag::Image(url) => self.push(Context::Image { url, alt: String::new() }),
            MdTag::HtmlBlock => self.push(Context::HtmlBlock { content: String::new() }),
            MdTag::TableRow | MdTag::Other => {},
        }
    }

    /// Text into an open code block or image alt text, or a span elsewhere.
    fn add_text(&mut self, text: &String)
        ensures
            final(self)@ == add_text(old(self)@, text@),
    {
        if self.stack.len() == 0 {
            return;
        }
        let ghost before = self@;
        let t = self.take_top();
        proof {
            assert(self@.stack =~= before.stack.drop_last());
        }
        match t {
            Context::CodeBlock { lang, mut code } => {
                code.append(text.as_str());
                self.put_back(Context::CodeBlock { lang, code }, Ghost(before));
            },
            Context::Image { url, mut alt } => {
                alt.append(text.as_str());
                self.put_back(Context::Image { url, alt }, Ghost(before));
            },
            other => {
                self.put_back(other, Ghost(before));
                proof {
                    lemma_set_top_same(before);
                }
                self.push_span(copy_string(text), false);
            },
        }
    }

    /// HTML text into an open HTML block; dropped elsewhere.
    fn add_html(&mut self, text: &String)
        ensures
            final(self)@ == add_html(old(self)@, text@),
    {
        if self.stack.len() == 0 {
            return;
        }
        let ghost before = self@;
        let t = self.take_top();
        proof {
            assert(self@.stack =~= before.stack.drop_last());
        }
        match t {
            Context::HtmlBlock { mut content } => {
                content.append(text.as_str());
                self.put_back(Context::HtmlBlock { content }, Ghost(before));
            },
            other => {
                self.put_back(other, Ghost(before));
                proof {
                    lemma_set_top_same(before);
                }
            },
        }
    }

    fn close_paragraph(&mut self)
        ensures
            final(self)@ == close_tag(old(self)@, MdTagEnd::Paragraph),
    {
        if !self.top_is_paragraph() {
            return;
        }
        let p = self.pop();
        let spans = match p {
            Some(Context::Paragraph { spans }) => spans,
            _ => {
                return;
            },
        };
        if self.stack.len() == 0 {
            return;
        }
        let ghost before = self@;
        let t = self.take_top();
        proof {
            assert(self@.stack =~= before.stack.drop_last());
            lemma_empty_models();
        }
        let t = match t {
            Context::ListItem { spans: item_spans, children } => {
                if item_spans.len() == 0 && children.len() == 0 {
                    proof {
                        lemma_blocks_model_len(children@);
                        assert(spans_model(item_spans@).len() == 0);
                    }
                    Context::ListItem { spans, children }
                } else {
                    proof {
                        lemma_blocks_model_len(children@);
                    }
                    Context::ListItem { spans: item_spans, children }.push_spans_as_paragraph(spans)
                }
            },
            other => other.push_spans_as_paragraph(spans),
        };
        self.put_back(t, Ghost(before));
        proof {
            lemma_set_top_same(before);
        }
    }

    fn close_image(&mut self)
        ensures
            final(self)@ == close_tag(old(self)@, MdTagEnd::Image),
    {
        let p = self.pop();
        match p {
            Some(Context::Image { url, alt }) => {
                if self.top_is_paragraph() {
                    let q = self.pop();
                    match q {
                        Some(Context::Paragraph { spans }) => {
                            if spans.len() > 0 {
                                self.add_block(Block::Paragraph { spans });
                            }
                        },
                        _ => {},
                    }
                }
                self.add_block(Block::Image { alt, url });
            },
            _ => {},
        }
    }

    /// The code of a closed code block, without the parser's final newline.
    fn trimmed_code(code: &String) -> (r: String)
        ensures
            r@ == strip_final_newline(code@),
    {
        let chars = chars_of(code.as_str());
        if chars.len() > 0 && chars[chars.len() - 1] == '\n' {
            let kept = copy_range(&chars, 0, chars.len() - 1);
            string_of(kept.as_slice())
        } else {
            copy_string(code)
        }
    }

    fn close(&mut self, tag: &MdTagEnd)
        ensures
            final(self)@ == close_tag(old(self)@, *tag),
    {
        proof {
            lemma_empty_models();
        }
        match tag {
            MdTagEnd::Heading => {
                let p = self.pop();
                match p {
                    Some(Context::Heading { level, spans }) => self.add_block(
                        Block::Heading { level, spans, id: None },
                    ),
                    _ => {},
                }
            },
            MdTagEnd::Paragraph => self.close_paragraph(),
            MdTagEnd::CodeBlock => {
                let p = self.pop();
                match p {
                    Some(Context::CodeBlock { lang, code }) => {
                        let code = Self::trimmed_code(&code);
                        self.add_block(Block::CodeBlock { lang, code });
                    },
                    _ => {},
                }
            },
            MdTagEnd::BlockQuote => {
                let p = self.pop();
                match p {
                    Some(Context::BlockQuote { blocks }) => self.add_block(
                        Block::BlockQuote { blocks },
                    ),
                    _ => {},
                }
            },
            MdTagEnd::List(ordered) => {
                let p = self.pop();
                match p {
                    Some(Context::List { start, items }) => self.add_block(
                        Block::List { ordered: *ordered, start, items },
                    ),
                    _ => {},
                }
            },
            MdTagEnd::Item => {
                let p = self.pop();
                match p {
                    Some(Context::ListItem { spans, children }) => {
                        if self.stack.len() > 0 {
                            let ghost before = self@;
                            let t = self.take_top();
                            proof {
                                assert(self@.stack =~= before.stack.drop_last());
                            }
                            match t {
                                Context::List { start, mut items } => {
                                    let item = ListItem { spans, children };
                                    proof {
                                        lemma_items_model_push(items@, item);
                                    }
                                    items.push(item);
                                    self.put_back(Context::List { start, items }, Ghost(before));
                                },
                                other => {
                                    self.put_back(other, Ghost(before));
                                    proof {
                                        lemma_set_top_same(before);
                                    }
                                },
                            }
                        }
                    },
                    _ => {},
                }
            },
            MdTagEnd::TableCell => {
                let p = self.pop();
                match p {
                    Some(Context::TableCell { spans }) => {
                        if self.stack.len() > 0 {
                            let ghost before = self@;
                            let t = self.take_top();
                            proof {
                                assert(self@.stack =~= before.stack.drop_last());
                            }
                            match t {
                                Context::Table { in_head, headers, rows, mut current_row } => {
                                    proof {
                                        lemma_cells_push(current_row@, spans);
                                    }
                                    current_row.push(spans);
                                    self.put_back(
                                        Context::Table { in_head, headers, rows, current_row },
                                        Ghost(before),
                                    );
                                },
                                other => {
                                    self.put_back(other, Ghost(before));
                                    proof {
                                        lemma_set_top_same(before);
                                    }
                                },
                            }
                        }
                    },
                    _ => {},
                }
            },
            MdTagEnd::TableHead => {
                if self.stack.len() > 0 {
                    let ghost before = self@;
                    let t = self.take_top();
                    proof {
                        assert(self@.stack =~= before.stack.drop_last());
                    }
                    match t {
                        Context::Table { rows, current_row, .. } => {
                            self.put_back(
                                Context::Table {
                                    in_head: false,
                                    headers: current_row,
                                    rows,
                                    current_row: Vec::new(),
                                },
                                Ghost(before),
                            );
                        },
                        other => {
                            self.put_back(other, Ghost(before));
                            proof {
                                lemma_set_top_same(before);
                            }
                        },
                    }
                }
            },
            MdTagEnd::TableRow => {
                if self.stack.len() > 0 {
                    let ghost before = self@;
                    let t = self.take_top();
                    proof {
                        assert(self@.stack =~= before.stack.drop_last());
                    }
                    match t {
                        Context::Table { in_head, headers, mut rows, current_row } => {
                            if !in_head {
                                proof {
                                    lemma_rows_push(rows@, current_row);
                                }
                                rows.push(current_row);
                                self.put_back(
                                    Context::Table {
                                        in_head,
                                        headers,
                                        rows,
                                        current_row: Vec::new(),
                                    },
                                    Ghost(before),
                                );
                            } else {
                                self.put_back(
                                    Context::Table { in_head, headers, rows, current_row },
                                    Ghost(before),
                                );
                                proof {
                                    lemma_set_top_same(before);
                                }
                            }
                        },
                        other => {
                            self.put_back(other, Ghost(before));
                            proof {
                                lemma_set_top_same(before);
                            }
                        },
                    }
                }
            },
            MdTagEnd::Table => {
                let p = self.pop();
                match p {
                    Some(Context::Table { headers, rows, .. }) => self.add_block(
                        Block::Table { headers, rows },
                    ),
                    _ => {},
                }
            },
            MdTagEnd::HtmlBlock => {
                let p = self.pop();
                match p {
                    Some(Context::HtmlBlock { content }) => {
                        match parse_html_block(&content) {
                            Some(block) => self.add_block(block),
                            None => {},
                        }
                    },
                    _ => {},
                }
            },
            MdTagEnd::Image => self.close_image(),
            MdTagEnd::Emphasis => {
                self.style.italic = false;
                assert(self@.stack =~= old(self)@.stack);
            },
            MdTagEnd::Strong => {
                self.style.bold = false;
                assert(self@.stack =~= old(self)@.stack);
            },
            MdTagEnd::Strikethrough => {
                self.style.strikethrough = false;
                assert(self@.stack =~= old(self)@.stack);
            },
            MdTagEnd::Link => {
                self.style.link_url = None;
                assert(self@.stack =~= old(self)@.stack);
            },
            MdTagEnd::Other => {},
        }
    }

    /// Advances the builder by one event.
    fn process(&mut self, event: &MdEvent)
        ensures
            final(self)@ == step(old(self)@, *event),
    {
        match event {
            MdEvent::Start(tag) => self.open(clone_tag(tag)),
            MdEvent::End(tag) => self.close(tag),
            MdEvent::Text(t) => self.add_text(t),
            MdEvent::Code(t) => self.push_span(copy_string(t), true),
            MdEvent::Html(t) => self.add_html(t),
            MdEvent::InlineHtml(t) => {
                match inline_html_effect(t) {
                    HtmlEffect::Italic(on) => {
                        self.style.italic = on;
                        assert(self@.stack =~= old(self)@.stack);
                    },
                    HtmlEffect::Bold(on) => {
                        self.style.bold = on;
                        assert(self@.stack =~= old(self)@.stack);
                    },
                    HtmlEffect::Strike(on) => {
                        self.style.strikethrough = on;
                        assert(self@.stack =~= old(self)@.stack);
                    },
                    HtmlEffect::LineBreak => {
                        let mut s = String::new();
                        push_char(&mut s, '\n');
                        self.push_span(s, false);
                    },
                    HtmlEffect::Ignore => {},
                }
            },
            MdEvent::SoftBreak => {
                let mut s = String::new();
                push_char(&mut s, ' ');
                self.push_span(s, false);
            },
            MdEvent::HardBreak => {
                let mut s = String::new();
                push_char(&mut s, '\n');
                self.push_span(s, false);
            },
            MdEvent::Rule => self.add_block(Block::ThematicBreak),
            MdEvent::Other => {},
        }
    }

    fn finish(self) -> (blocks: Vec<Block>)
        ensures
            blocks_model(blocks@) == finish(self@),
    {
        let mut b = self;
        match b.pop() {
            Some(Context::Root { blocks }) => blocks,
            _ => Vec::new(),
        }
    }
}

/// A copy of an opening tag.
fn clone_tag(tag: &MdTag) -> (r: MdTag)
    ensures
        open_tag_same(r, *tag),
{
    match tag {
        MdTag::Paragraph => MdTag::Paragraph,
        MdTag::Heading(level) => MdTag::Heading(*level),
        MdTag::BlockQuote => MdTag::BlockQuote,
        MdTag::CodeBlock(info) => MdTag::CodeBlock(copy_opt_string(info)),
        MdTag::HtmlBlock => MdTag::HtmlBlock,
        MdTag::List(start) => MdTag::List(*start),
        MdTag::Item => MdTag::Item,
        MdTag::Table => MdTag::Table,
        MdTag::TableHead => MdTag::TableHead,
        MdTag::TableRow => MdTag::TableRow,
        MdTag::TableCell => MdTag::TableCell,
        MdTag::Emphasis => MdTag::Emphasis,
        MdTag::Strong => MdTag::Strong,
        MdTag::Strikethrough => MdTag::Strikethrough,
        MdTag::Link(url) => MdTag::Link(copy_string(url)),
        MdTag::Image(url) => MdTag::Image(copy_string(url)),
        MdTag::Other => MdTag::Other,
    }
}

/// Two opening tags that open the same container (their texts agree as characters).
spec fn open_tag_same(a: MdTag, b: MdTag) -> bool {
    match (a, b) {
        (MdTag::CodeBlock(x), MdTag::CodeBlock(y)) => opt_chars(x) == opt_chars(y),
        (MdTag::Link(x), MdTag::Link(y)) => x@ == y@,
        (MdTag::Image(x), MdTag::Image(y)) => x@ == y@,
        (MdTag::CodeBlock(_), _) | (MdTag::Link(_), _) | (MdTag::Image(_), _) => false,
        _ => a == b,
    }
}

/// Folds a stream of Markdown events into blocks.
pub fn build_blocks(events: &Vec<MdEvent>) -> (blocks: Vec<Block>)
    ensures
        blocks_model(blocks@) == document(events@),
{
    let mut builder = DocBuilder::new();
    let mut i: usize = 0;
    while i < events.len()
        invariant
            i <= events.len(),
            builder@ == run(initial_builder(), events@.subrange(0, i as int)),
        decreases events.len() - i,
    {
        proof {
            let next = events@.subrange(0, i + 1);
            assert(next.subrange(0, i as int) =~= events@.subrange(0, i as int));
            assert(next[i as int] == events@[i as int]);
        }
        builder.process(&events[i]);
        i = i + 1;
    }
    assert(events@.subrange(0, events.len() as int) =~= events@);
    builder.finish()
}

/// Parse a markdown string into a list of blocks
pub fn parse(markdown: &str) -> (blocks: Vec<Block>)
    ensures
        blocks_model(blocks@) == document(markdown_event_stream(markdown@, MARKDOWN_OPTIONS)),
{
    let events = markdown_events(markdown);
    build_blocks(&events)
}

} // verus!
