//! The parsed document: blocks of styled inline text, and the plain text that
//! search and source mapping read from each block.

use vstd::prelude::*;
use crate::text::{opt_chars, copy_string, push_char};

verus! {

/// Inline text style flags
#[derive(Debug, Clone, Copy, Default, PartialEq, Eq, Structural)]
pub struct InlineStyle {
    pub bold: bool,
    pub italic: bool,
    pub strikethrough: bool,
    pub code: bool,
}

/// A span of styled inline text
#[derive(Debug, Clone)]
pub struct StyledSpan {
    pub text: String,
    pub style: InlineStyle,
    pub link_url: Option<String>,
}

/// A single list item, which contains inline spans and optional nested blocks
#[derive(Debug)]
pub struct ListItem {
    pub spans: Vec<StyledSpan>,
    pub children: Vec<Block>,
}

/// Heading level (1-6)
#[derive(Debug, Clone, Copy, PartialEq, Eq, Structural)]
pub enum HeadingLevel {
    H1,
    H2,
    H3,
    H4,
    H5,
    H6,
}

impl HeadingLevel {
    /// Converts a `pulldown_cmark::HeadingLevel` to the level of the same
    /// number, variant by variant. Nothing is claimed of it beyond its type.
    #[verifier::external_body]
    pub fn from_pulldown(level: pulldown_cmark::HeadingLevel) -> Self {
        match level {
            pulldown_cmark::HeadingLevel::H1 => Self::H1,
            pulldown_cmark::HeadingLevel::H2 => Self::H2,
            pulldown_cmark::HeadingLevel::H3 => Self::H3,
            pulldown_cmark::HeadingLevel::H4 => Self::H4,
            pulldown_cmark::HeadingLevel::H5 => Self::H5,
            pulldown_cmark::HeadingLevel::H6 => Self::H6,
        }
    }
}

/// A parsed markdown block element
#[derive(Debug)]
pub enum Block {
    Heading { level: HeadingLevel, spans: Vec<StyledSpan>, id: Option<String> },
    Paragraph { spans: Vec<StyledSpan> },
    CodeBlock { lang: Option<String>, code: String },
    Table { headers: Vec<Vec<StyledSpan>>, rows: Vec<Vec<Vec<StyledSpan>>> },
    BlockQuote { blocks: Vec<Block> },
    List { ordered: bool, start: Option<u64>, items: Vec<ListItem> },
    Image { alt: String, url: String },
    ThematicBreak,
}

// ── Mathematical model of the document ─────────────────────────────────────
/// A styled span as mathematical values.
pub struct SpanModel {
    pub text: Seq<char>,
    pub style: InlineStyle,
    pub link_url: Option<Seq<char>>,
}

/// A list item as mathematical values.
pub struct ItemModel {
    pub spans: Seq<SpanModel>,
    pub children: Seq<BlockModel>,
}

/// A block as mathematical values.
pub enum BlockModel {
    Heading { level: HeadingLevel, spans: Seq<SpanModel>, id: Option<Seq<char>> },
    Paragraph { spans: Seq<SpanModel> },
    CodeBlock { lang: Option<Seq<char>>, code: Seq<char> },
    Table { headers: Seq<Seq<SpanModel>>, rows: Seq<Seq<Seq<SpanModel>>> },
    BlockQuote { blocks: Seq<BlockModel> },
    List { ordered: bool, start: Option<u64>, items: Seq<ItemModel> },
    Image { alt: Seq<char>, url: Seq<char> },
    ThematicBreak,
}

pub open spec fn span_model(s: StyledSpan) -> SpanModel {
    SpanModel { text: s.text@, style: s.style, link_url: opt_chars(s.link_url) }
}

pub open spec fn spans_model(s: Seq<StyledSpan>) -> Seq<SpanModel> {
    s.map_values(|x: StyledSpan| span_model(x))
}

pub open spec fn cells_model(s: Seq<Vec<StyledSpan>>) -> Seq<Seq<SpanModel>> {
    s.map_values(|c: Vec<StyledSpan>| spans_model(c@))
}

pub open spec fn rows_model(s: Seq<Vec<Vec<StyledSpan>>>) -> Seq<Seq<Seq<SpanModel>>> {
    s.map_values(|r: Vec<Vec<StyledSpan>>| cells_model(r@))
}

pub open spec fn block_model(b: Block) -> BlockModel
    decreases b,
{
    match b {
        Block::Heading { level, spans, id } => BlockModel::Heading {
            level,
            spans: spans_model(spans@),
            id: opt_chars(id),
        },
        Block::Paragraph { spans } => BlockModel::Paragraph { spans: spans_model(spans@) },
        Block::CodeBlock { lang, code } => BlockModel::CodeBlock { lang: opt_chars(lang), code: code@ },
        Block::Table { headers, rows } => BlockModel::Table {
            headers: cells_model(headers@),
            rows: rows_model(rows@),
        },
        Block::BlockQuote { blocks } => BlockModel::BlockQuote { blocks: blocks_model(blocks@) },
        Block::List { ordered, start, items } => BlockModel::List {
            ordered,
            start,
            items: items_model(items@),
        },
        Block::Image { alt, url } => BlockModel::Image { alt: alt@, url: url@ },
        Block::ThematicBreak => BlockModel::ThematicBreak,
    }
}

pub open spec fn blocks_model(s: Seq<Block>) -> Seq<BlockModel>
    decreases s,
{
    if s.len() == 0 {
        Seq::empty()
    } else {
        blocks_model(s.subrange(0, s.len() - 1)).push(block_model(s[s.len() - 1]))
    }
}

pub open spec fn item_model(it: ListItem) -> ItemModel
    decreases it,
{
    ItemModel { spans: spans_model(it.spans@), children: blocks_model(it.children@) }
}

pub open spec fn items_model(s: Seq<ListItem>) -> Seq<ItemModel>
    decreases s,
{
    if s.len() == 0 {
        Seq::empty()
    } else {
        items_model(s.subrange(0, s.len() - 1)).push(item_model(s[s.len() - 1]))
    }
}

impl View for StyledSpan {
    type V = SpanModel;

    open spec fn view(&self) -> SpanModel {
        span_model(*self)
    }
}

impl View for Block {
    type V = BlockModel;

    open spec fn view(&self) -> BlockModel {
        block_model(*self)
    }
}

impl View for ListItem {
    type V = ItemModel;

    open spec fn view(&self) -> ItemModel {
        item_model(*self)
    }
}

pub proof fn lemma_blocks_model_len(s: Seq<Block>)
    ensures
        blocks_model(s).len() == s.len(),
    decreases s.len(),
{
    if s.len() > 0 {
        lemma_blocks_model_len(s.subrange(0, s.len() - 1));
    }
}

pub proof fn lemma_blocks_model_index(s: Seq<Block>, i: int)
    requires
        0 <= i < s.len(),
    ensures
        blocks_model(s)[i] == block_model(s[i]),
    decreases s.len(),
{
    lemma_blocks_model_len(s.subrange(0, s.len() - 1));
    if i < s.len() - 1 {
        lemma_blocks_model_index(s.subrange(0, s.len() - 1), i);
    }
}

pub proof fn lemma_blocks_model_push(s: Seq<Block>, b: Block)
    ensures
        blocks_model(s.push(b)) == blocks_model(s).push(block_model(b)),
{
    assert(s.push(b).subrange(0, s.len() as int) =~= s);
}

pub proof fn lemma_items_model_len(s: Seq<ListItem>)
    ensures
        items_model(s).len() == s.len(),
    decreases s.len(),
{
    if s.len() > 0 {
        lemma_items_model_len(s.subrange(0, s.len() - 1));
    }
}

pub proof fn lemma_items_model_index(s: Seq<ListItem>, i: int)
    requires
        0 <= i < s.len(),
    ensures
        items_model(s)[i] == item_model(s[i]),
    decreases s.len(),
{
    lemma_items_model_len(s.subrange(0, s.len() - 1));
    if i < s.len() - 1 {
        lemma_items_model_index(s.subrange(0, s.len() - 1), i);
    }
}

pub proof fn lemma_items_model_push(s: Seq<ListItem>, it: ListItem)
    ensures
        items_model(s.push(it)) == items_model(s).push(item_model(it)),
{
    assert(s.push(it).subrange(0, s.len() as int) =~= s);
}

// ── Plain text of a block ──────────────────────────────────────────────────
/// The concatenated text of a run of spans.
pub open spec fn spans_text(s: Seq<SpanModel>) -> Seq<char>
    decreases s.len(),
{
    if s.len() == 0 {
        Seq::empty()
    } else {
        spans_text(s.subrange(0, s.len() - 1)) + s[s.len() - 1].text
    }
}

/// The texts of table cells, joined by single spaces.
pub open spec fn cells_text(cells: Seq<Seq<SpanModel>>) -> Seq<char>
    decreases cells.len(),
{
    if cells.len() == 0 {
        Seq::empty()
    } else if cells.len() == 1 {
        spans_text(cells[0])
    } else {
        cells_text(cells.subrange(0, cells.len() - 1)) + seq![' '] + spans_text(
            cells[cells.len() - 1],
        )
    }
}

/// The texts of table rows, joined by newlines.
pub open spec fn rows_text(rows: Seq<Seq<Seq<SpanModel>>>) -> Seq<char>
    decreases rows.len(),
{
    if rows.len() == 0 {
        Seq::empty()
    } else if rows.len() == 1 {
        cells_text(rows[0])
    } else {
        rows_text(rows.subrange(0, rows.len() - 1)) + seq!['\n'] + cells_text(
            rows[rows.len() - 1],
        )
    }
}

/// The plain text of a block: what search matches against.
pub open spec fn block_text(b: BlockModel) -> Seq<char>
    decreases b,
{
    match b {
        BlockModel::Heading { spans, .. } => spans_text(spans),
        BlockModel::Paragraph { spans } => spans_text(spans),
        BlockModel::CodeBlock { code, .. } => code,
        BlockModel::List { items, .. } => items_text(items),
        BlockModel::BlockQuote { blocks } => blocks_text(blocks),
        BlockModel::Table { headers, rows } => cells_text(headers) + seq!['\n'] + rows_text(rows),
        BlockModel::Image { alt, .. } => alt,
        BlockModel::ThematicBreak => Seq::empty(),
    }
}

/// The texts of blocks, joined by newlines.
pub open spec fn blocks_text(bs: Seq<BlockModel>) -> Seq<char>
    decreases bs,
{
    if bs.len() == 0 {
        Seq::empty()
    } else if bs.len() == 1 {
        block_text(bs[0])
    } else {
        blocks_text(bs.subrange(0, bs.len() - 1)) + seq!['\n'] + block_text(bs[bs.len() - 1])
    }
}

/// The text of a list item: its own spans, then each child block on a line of its own.
pub open spec fn item_text(it: ItemModel) -> Seq<char>
    decreases it,
{
    spans_text(it.spans) + children_text(it.children)
}

/// Each child block's text preceded by a newline.
pub open spec fn children_text(cs: Seq<BlockModel>) -> Seq<char>
    decreases cs,
{
    if cs.len() == 0 {
        Seq::empty()
    } else {
        children_text(cs.subrange(0, cs.len() - 1)) + seq!['\n'] + block_text(cs[cs.len() - 1])
    }
}

/// The texts of list items, joined by newlines.
pub open spec fn items_text(items: Seq<ItemModel>) -> Seq<char>
    decreases items,
{
    if items.len() == 0 {
        Seq::empty()
    } else if items.len() == 1 {
        item_text(items[0])
    } else {
        items_text(items.subrange(0, items.len() - 1)) + seq!['\n'] + item_text(
            items[items.len() - 1],
        )
    }
}

// ── Executable text extraction ─────────────────────────────────────────────
proof fn lemma_spans_model_prefix(s: Seq<StyledSpan>, i: int)
    requires
        0 <= i < s.len(),
    ensures
        spans_model(s.subrange(0, i + 1)).subrange(0, i) =~= spans_model(s.subrange(0, i)),
        spans_model(s.subrange(0, i + 1)).len() == i + 1,
        spans_model(s.subrange(0, i + 1))[i] == span_model(s[i]),
{
}

/// The concatenated text of a run of spans.
pub fn spans_plain_text(spans: &Vec<StyledSpan>) -> (r: String)
    ensures
        r@ == spans_text(spans_model(spans@)),
{
    let mut r = String::new();
    let mut i: usize = 0;
    while i < spans.len()
        invariant
            i <= spans.len(),
            r@ == spans_text(spans_model(spans@.subrange(0, i as int))),
        decreases spans.len() - i,
    {
        proof {
            lemma_spans_model_prefix(spans@, i as int);
        }
        r.append(spans[i].text.as_str());
        i = i + 1;
    }
    assert(spans@.subrange(0, spans.len() as int) =~= spans@);
    r
}

/// Table cell texts joined by single spaces.
fn cells_plain_text(cells: &Vec<Vec<StyledSpan>>) -> (r: String)
    ensures
        r@ == cells_text(cells_model(cells@)),
{
    let mut r = String::new();
    let mut i: usize = 0;
    while i < cells.len()
        invariant
            i <= cells.len(),
            r@ == cells_text(cells_model(cells@.subrange(0, i as int))),
        decreases cells.len() - i,
    {
        let ghost prev = cells_model(cells@.subrange(0, i as int));
        let ghost next = cells_model(cells@.subrange(0, i + 1));
        assert(next.subrange(0, i as int) =~= prev);
        if i > 0 {
            push_char(&mut r, ' ');
        }
        let t = spans_plain_text(&cells[i]);
        r.append(t.as_str());
        i = i + 1;
    }
    assert(cells@.subrange(0, cells.len() as int) =~= cells@);
    r
}

/// Table rows joined by newlines.
fn rows_plain_text(rows: &Vec<Vec<Vec<StyledSpan>>>) -> (r: String)
    ensures
        r@ == rows_text(rows_model(rows@)),
{
    let mut r = String::new();
    let mut i: usize = 0;
    while i < rows.len()
        invariant
            i <= rows.len(),
            r@ == rows_text(rows_model(rows@.subrange(0, i as int))),
        decreases rows.len() - i,
    {
        let ghost prev = rows_model(rows@.subrange(0, i as int));
        let ghost next = rows_model(rows@.subrange(0, i + 1));
        assert(next.subrange(0, i as int) =~= prev);
        if i > 0 {
            push_char(&mut r, '\n');
        }
        let t = cells_plain_text(&rows[i]);
        r.append(t.as_str());
        i = i + 1;
    }
    assert(rows@.subrange(0, rows.len() as int) =~= rows@);
    r
}

/// Block texts joined by newlines.
fn blocks_plain_text(blocks: &Vec<Block>) -> (r: String)
    ensures
        r@ == blocks_text(blocks_model(blocks@)),
    decreases blocks@,
{
    let mut r = String::new();
    let mut i: usize = 0;
    while i < blocks.len()
        invariant
            i <= blocks.len(),
            r@ == blocks_text(blocks_model(blocks@.subrange(0, i as int))),
        decreases blocks.len() - i,
    {
        proof {
            assert(blocks@.subrange(0, i + 1) =~= blocks@.subrange(0, i as int).push(blocks@[i as int]));
            lemma_blocks_model_push(blocks@.subrange(0, i as int), blocks@[i as int]);
            lemma_blocks_model_len(blocks@.subrange(0, i as int));
            let next = blocks_model(blocks@.subrange(0, i + 1));
            assert(next.subrange(0, i as int) =~= blocks_model(blocks@.subrange(0, i as int)));
        }
        if i > 0 {
            push_char(&mut r, '\n');
        }
        let t = blocks[i].text_content();
        r.append(t.as_str());
        i = i + 1;
    }
    assert(blocks@.subrange(0, blocks.len() as int) =~= blocks@);
    r
}

/// A list item's text: its spans, then each child block after a newline.
fn item_plain_text(item: &ListItem) -> (r: String)
    ensures
        r@ == item_text(item_model(*item)),
    decreases *item,
{
    let mut r = spans_plain_text(&item.spans);
    let ghost head = r@;
    let mut i: usize = 0;
    while i < item.children.len()
        invariant
            i <= item.children.len(),
            r@ == head + children_text(blocks_model(item.children@.subrange(0, i as int))),
        decreases item.children.len() - i,
    {
        proof {
            assert(item.children@.subrange(0, i + 1) =~= item.children@.subrange(0, i as int).push(item.children@[i as int]));
            lemma_blocks_model_push(item.children@.subrange(0, i as int), item.children@[i as int]);
            lemma_blocks_model_len(item.children@.subrange(0, i as int));
            let next = blocks_model(item.children@.subrange(0, i + 1));
            assert(next.subrange(0, i as int) =~= blocks_model(item.children@.subrange(0, i as int)));
        }
        push_char(&mut r, '\n');
        proof {
            assert(decreases_to!(item.children => item.children@));
            assert(decreases_to!(item.children@ => item.children@[i as int]));
        }
        let t = item.children[i].text_content();
        r.append(t.as_str());
        proof {
            assert(r@ =~= head + children_text(blocks_model(item.children@.subrange(0, i + 1))));
        }
        i = i + 1;
    }
    assert(item.children@.subrange(0, item.children.len() as int) =~= item.children@);
    r
}

/// List item texts joined by newlines.
fn items_plain_text(items: &Vec<ListItem>) -> (r: String)
    ensures
        r@ == items_text(items_model(items@)),
    decreases items@,
{
    let mut r = String::new();
    let mut i: usize = 0;
    while i < items.len()
        invariant
            i <= items.len(),
            r@ == items_text(items_model(items@.subrange(0, i as int))),
        decreases items.len() - i,
    {
        proof {
            assert(items@.subrange(0, i + 1) =~= items@.subrange(0, i as int).push(items@[i as int]));
            lemma_items_model_push(items@.subrange(0, i as int), items@[i as int]);
            lemma_items_model_len(items@.subrange(0, i as int));
            let next = items_model(items@.subrange(0, i + 1));
            assert(next.subrange(0, i as int) =~= items_model(items@.subrange(0, i as int)));
        }
        if i > 0 {
            push_char(&mut r, '\n');
        }
        let t = item_plain_text(&items[i]);
        r.append(t.as_str());
        i = i + 1;
    }
    assert(items@.subrange(0, items.len() as int) =~= items@);
    r
}

impl Block {
    /// The block's plain text: span texts concatenated; list items, quoted
    /// blocks and table rows on lines of their own; table cells separated by
    /// spaces; an image's alt text; nothing for a thematic break.
    pub fn text_content(&self) -> (r: String)
        ensures
            r@ == block_text(self@),
        decreases *self,
    {
        match self {
            Block::Heading { spans, .. } => spans_plain_text(spans),
            Block::Paragraph { spans } => spans_plain_text(spans),
            Block::CodeBlock { code, .. } => copy_string(code),
            Block::List { items, .. } => items_plain_text(items),
            Block::BlockQuote { blocks } => blocks_plain_text(blocks),
            Block::Table { headers, rows } => {
                let mut r = cells_plain_text(headers);
                push_char(&mut r, '\n');
                let t = rows_plain_text(rows);
                r.append(t.as_str());
                r
            },
            Block::Image { alt, .. } => copy_string(alt),
            Block::ThematicBreak => String::new(),
        }
    }
}

} // verus!
