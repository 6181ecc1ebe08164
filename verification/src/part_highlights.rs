//! How a block's search highlights are handed to the parts it is drawn in.
//!
//! Highlights are byte ranges of a block's plain text (`Block::text_content`).
//! A quote draws each quoted block on its own, a list each item's text and
//! each child block, a table each cell, and a code block draws its language
//! label above the code: each part gets the highlights that reach into it,
//! moved to its own byte positions.

use vstd::prelude::*;
use crate::blocks::{Block, BlockModel, blocks_model, block_text, blocks_text, lemma_blocks_model_len, lemma_blocks_model_index};
use crate::blocks::{ListItem, ItemModel, items_model, items_text, item_text, children_text, lemma_items_model_len, lemma_items_model_index};
use crate::blocks::{StyledSpan, SpanModel, spans_model, spans_text, cells_model, cells_text, rows_model, rows_text, spans_plain_text};
use crate::graphics::HighlightRange;
use crate::viewport::{byte_len, sliced_ranges, slice_highlights};
use vstd::utf8::encode_utf8;
use vstd::string::StringSliceAdditionalSpecFns;

verus! {

/// Encoding a concatenation concatenates the encodings.
pub proof fn lemma_encode_concat(a: Seq<char>, b: Seq<char>)
    ensures
        encode_utf8(a + b) == encode_utf8(a) + encode_utf8(b),
    decreases a.len(),
{
    if a.len() == 0 {
        assert(a + b =~= b);
        assert(encode_utf8(a) =~= Seq::<u8>::empty());
        assert(encode_utf8(a) + encode_utf8(b) =~= encode_utf8(b));
    } else {
        lemma_encode_concat(a.drop_first(), b);
        assert((a + b).drop_first() =~= a.drop_first() + b);
        assert((a + b)[0] == a[0]);
        assert(encode_utf8(a + b) =~= vstd::utf8::encode_scalar(a[0] as u32) + encode_utf8(a.drop_first() + b));
    }
}

/// A newline or a space takes one byte.
pub proof fn lemma_separator_byte(c: char)
    requires
        c == '\n' || c == ' ',
    ensures
        byte_len(seq![c]) == 1,
{
    let one = seq![c];
    assert(one.drop_first() =~= Seq::<char>::empty());
    assert(encode_utf8(Seq::<char>::empty()) == Seq::<u8>::empty());
    assert(one[0] == c);
    assert(encode_utf8(one) =~= vstd::utf8::encode_scalar(c as u32));
}

/// The UTF-8 size of three texts in a row.
proof fn lemma_join_bytes(a: Seq<char>, c: char, b: Seq<char>)
    requires
        c == '\n' || c == ' ',
    ensures
        byte_len(a + seq![c] + b) == byte_len(a) + 1 + byte_len(b),
{
    lemma_encode_concat(a, seq![c]);
    lemma_encode_concat(a + seq![c], b);
    lemma_separator_byte(c);
}

// ── Code blocks ────────────────────────────────────────────────────────────
/// The bytes of the language label drawn above a code block's code (the
/// name and two line breaks), or none without a language.
pub open spec fn label_bytes(lang: Option<Seq<char>>) -> nat {
    match lang {
        Some(l) => byte_len(l) + 2,
        None => 0,
    }
}

/// Highlights moved `by` bytes later.
pub open spec fn shifted_ranges(hs: Seq<HighlightRange>, by: nat) -> Seq<HighlightRange> {
    hs.map_values(|h: HighlightRange| HighlightRange {
        byte_start: (h.byte_start + by) as usize,
        byte_end: (h.byte_end + by) as usize,
        color: h.color,
        alpha: h.alpha,
    })
}

/// A code block's highlights, moved past its language label.
pub fn code_highlights(lang: &Option<String>, highlights: &Vec<HighlightRange>) -> (r: Vec<HighlightRange>)
    requires
        label_bytes(crate::text::opt_chars(*lang)) <= usize::MAX,
        forall|i: int|
            0 <= i < highlights.len() ==> #[trigger] highlights@[i].byte_start + label_bytes(crate::text::opt_chars(*lang)) <= usize::MAX
                && highlights@[i].byte_end + label_bytes(crate::text::opt_chars(*lang)) <= usize::MAX,
    ensures
        r@ == shifted_ranges(highlights@, label_bytes(crate::text::opt_chars(*lang))),
{
    let label: usize = match lang {
        Some(l) => {
            let ls = l.as_str();
            proof {
                assert(ls@ == l@);
                assert(crate::text::opt_chars(*lang) == Some(l@));
            }
            ls.len() + 2
        },
        None => 0,
    };
    let mut r: Vec<HighlightRange> = Vec::new();
    let mut i: usize = 0;
    while i < highlights.len()
        invariant
            i <= highlights.len(),
            label == label_bytes(crate::text::opt_chars(*lang)),
            forall|k: int|
                0 <= k < highlights.len() ==> #[trigger] highlights@[k].byte_start + label <= usize::MAX
                    && highlights@[k].byte_end + label <= usize::MAX,
            r@ == shifted_ranges(highlights@.take(i as int), label as nat),
        decreases highlights.len() - i,
    {
        let h = highlights[i];
        r.push(HighlightRange { byte_start: h.byte_start + label, byte_end: h.byte_end + label, color: h.color, alpha: h.alpha });
        proof {
            assert(highlights@.take(i + 1) =~= highlights@.take(i as int).push(h));
            assert(r@ =~= shifted_ranges(highlights@.take(i + 1), label as nat));
        }
        i = i + 1;
    }
    proof {
        assert(highlights@.take(highlights.len() as int) =~= highlights@);
    }
    r
}

// ── Quotes ─────────────────────────────────────────────────────────────────
/// Where the `j`-th of some blocks joined by newlines starts, in bytes.
pub open spec fn joined_offset(m: Seq<BlockModel>, j: int) -> nat {
    if j <= 0 {
        0
    } else {
        byte_len(blocks_text(m.take(j))) + 1
    }
}

/// The text of the first `k + 1` blocks ends where block `k` ends.
proof fn lemma_blocks_text_step(m: Seq<BlockModel>, k: int)
    requires
        0 <= k < m.len(),
    ensures
        byte_len(blocks_text(m.take(k + 1))) == joined_offset(m, k) + byte_len(block_text(m[k])),
        k > 0 ==> blocks_text(m.take(k + 1)) == blocks_text(m.take(k)) + seq!['\n'] + block_text(m[k]),
        k == 0 ==> blocks_text(m.take(k + 1)) == block_text(m[k]),
{
    let t = m.take(k + 1);
    assert(t.subrange(0, t.len() - 1) =~= m.take(k));
    assert(t[t.len() - 1] == m[k]);
    if k > 0 {
        lemma_join_bytes(blocks_text(m.take(k)), '\n', block_text(m[k]));
    }
}

/// The text of a prefix of blocks is no longer than that of all of them.
proof fn lemma_blocks_text_prefix(m: Seq<BlockModel>, k: int)
    requires
        0 <= k <= m.len(),
    ensures
        byte_len(blocks_text(m.take(k))) <= byte_len(blocks_text(m)),
    decreases m.len() - k,
{
    if k < m.len() {
        lemma_blocks_text_prefix(m, k + 1);
        lemma_blocks_text_step(m, k);
        if k == 0 {
            assert(m.take(0) =~= Seq::<BlockModel>::empty());
        }
    } else {
        assert(m.take(k) =~= m);
    }
}

/// The highlights of each block inside a quote: the quote's text is its
/// blocks' texts joined by newlines.
pub fn quote_highlights(blocks: &Vec<Block>, highlights: &Vec<HighlightRange>) -> (r: Vec<Vec<HighlightRange>>)
    requires
        byte_len(blocks_text(blocks_model(blocks@))) <= usize::MAX,
    ensures
        r.len() == blocks.len(),
        forall|j: int|
            0 <= j < blocks.len() ==> #[trigger] r@[j]@ == sliced_ranges(
                highlights@,
                joined_offset(blocks_model(blocks@), j),
                byte_len(block_text(blocks_model(blocks@)[j])),
            ),
{
    let ghost m = blocks_model(blocks@);
    proof {
        lemma_blocks_model_len(blocks@);
    }
    let mut r: Vec<Vec<HighlightRange>> = Vec::new();
    let mut cursor: usize = 0;
    let mut i: usize = 0;
    while i < blocks.len()
        invariant
            i <= blocks.len(),
            m == blocks_model(blocks@),
            m.len() == blocks.len(),
            byte_len(blocks_text(m)) <= usize::MAX,
            i < blocks.len() ==> cursor == joined_offset(m, i as int),
            r.len() == i,
            forall|j: int|
                0 <= j < i ==> #[trigger] r@[j]@ == sliced_ranges(highlights@, joined_offset(m, j), byte_len(block_text(m[j]))),
        decreases blocks.len() - i,
    {
        let text = blocks[i].text_content();
        let len = text.as_str().len();
        proof {
            lemma_blocks_model_index(blocks@, i as int);
            lemma_blocks_text_step(m, i as int);
            lemma_blocks_text_prefix(m, i + 1);
        }
        let part = slice_highlights(highlights, cursor, len);
        r.push(part);
        cursor = cursor + len;
        if i + 1 < blocks.len() {
            proof {
                lemma_blocks_text_step(m, i + 1);
                lemma_blocks_text_prefix(m, i + 2);
            }
            cursor = cursor + 1;
        }
        i = i + 1;
    }
    r
}

// ── Tables ─────────────────────────────────────────────────────────────────
/// Where the `j`-th of some cells joined by spaces starts, in bytes.
pub open spec fn cell_offset(cm: Seq<Seq<SpanModel>>, j: int) -> nat {
    if j <= 0 {
        0
    } else {
        byte_len(cells_text(cm.take(j))) + 1
    }
}

/// Where the `j`-th of some table rows joined by newlines starts, in bytes.
pub open spec fn row_offset(rm: Seq<Seq<Seq<SpanModel>>>, j: int) -> nat {
    if j <= 0 {
        0
    } else {
        byte_len(rows_text(rm.take(j))) + 1
    }
}

/// The highlight ranges held by each of some vectors.
pub open spec fn parts_view(v: Seq<Vec<HighlightRange>>) -> Seq<Seq<HighlightRange>> {
    v.map_values(|x: Vec<HighlightRange>| x@)
}

/// The highlights of each cell of a row whose text starts at byte `start`.
pub open spec fn cell_parts(hs: Seq<HighlightRange>, cm: Seq<Seq<SpanModel>>, start: nat) -> Seq<Seq<HighlightRange>> {
    Seq::new(cm.len(), |j: int| sliced_ranges(hs, start + cell_offset(cm, j), byte_len(spans_text(cm[j]))))
}

proof fn lemma_cells_text_step(cm: Seq<Seq<SpanModel>>, k: int)
    requires
        0 <= k < cm.len(),
    ensures
        byte_len(cells_text(cm.take(k + 1))) == cell_offset(cm, k) + byte_len(spans_text(cm[k])),
{
    let t = cm.take(k + 1);
    assert(t.subrange(0, t.len() - 1) =~= cm.take(k));
    assert(t[t.len() - 1] == cm[k]);
    if k > 0 {
        lemma_join_bytes(cells_text(cm.take(k)), ' ', spans_text(cm[k]));
    }
}

proof fn lemma_cells_text_prefix(cm: Seq<Seq<SpanModel>>, k: int)
    requires
        0 <= k <= cm.len(),
    ensures
        byte_len(cells_text(cm.take(k))) <= byte_len(cells_text(cm)),
    decreases cm.len() - k,
{
    if k < cm.len() {
        lemma_cells_text_prefix(cm, k + 1);
        lemma_cells_text_step(cm, k);
        if k == 0 {
            assert(cm.take(0) =~= Seq::<Seq<SpanModel>>::empty());
        }
    } else {
        assert(cm.take(k) =~= cm);
    }
}

proof fn lemma_rows_text_step(rm: Seq<Seq<Seq<SpanModel>>>, k: int)
    requires
        0 <= k < rm.len(),
    ensures
        byte_len(rows_text(rm.take(k + 1))) == row_offset(rm, k) + byte_len(cells_text(rm[k])),
{
    let t = rm.take(k + 1);
    assert(t.subrange(0, t.len() - 1) =~= rm.take(k));
    assert(t[t.len() - 1] == rm[k]);
    if k > 0 {
        lemma_join_bytes(rows_text(rm.take(k)), '\n', cells_text(rm[k]));
    }
}

proof fn lemma_rows_text_prefix(rm: Seq<Seq<Seq<SpanModel>>>, k: int)
    requires
        0 <= k <= rm.len(),
    ensures
        byte_len(rows_text(rm.take(k))) <= byte_len(rows_text(rm)),
    decreases rm.len() - k,
{
    if k < rm.len() {
        lemma_rows_text_prefix(rm, k + 1);
        lemma_rows_text_step(rm, k);
        if k == 0 {
            assert(rm.take(0) =~= Seq::<Seq<Seq<SpanModel>>>::empty());
        }
    } else {
        assert(rm.take(k) =~= rm);
    }
}

/// The UTF-8 size of the text of some spans.
fn spans_bytes(spans: &Vec<StyledSpan>) -> (n: usize)
    requires
        byte_len(spans_text(spans_model(spans@))) <= usize::MAX,
    ensures
        n == byte_len(spans_text(spans_model(spans@))),
{
    let t = spans_plain_text(spans);
    t.as_str().len()
}

/// The highlights of each cell of a row whose text starts at byte `start`,
/// and the byte where the row's text ends.
fn row_highlights(cells: &Vec<Vec<StyledSpan>>, highlights: &Vec<HighlightRange>, start: usize) -> (r: (Vec<Vec<HighlightRange>>, usize))
    requires
        start + byte_len(cells_text(cells_model(cells@))) <= usize::MAX,
    ensures
        parts_view(r.0@) == cell_parts(highlights@, cells_model(cells@), start as nat),
        r.1 == start + byte_len(cells_text(cells_model(cells@))),
{
    let ghost cm = cells_model(cells@);
    let mut r: Vec<Vec<HighlightRange>> = Vec::new();
    let mut cursor: usize = start;
    let mut i: usize = 0;
    if cells.len() == 0 {
        proof {
            assert(parts_view(r@) =~= cell_parts(highlights@, cm, start as nat));
        }
        return (r, start);
    }
    while i < cells.len()
        invariant
            0 < cells.len(),
            i <= cells.len(),
            cm == cells_model(cells@),
            cm.len() == cells.len(),
            start + byte_len(cells_text(cm)) <= usize::MAX,
            i < cells.len() ==> cursor == start + cell_offset(cm, i as int),
            i == cells.len() ==> cursor == start + byte_len(cells_text(cm)),
            r.len() == i,
            forall|j: int|
                0 <= j < i ==> #[trigger] r@[j]@ == sliced_ranges(highlights@, (start + cell_offset(cm, j)) as nat, byte_len(spans_text(cm[j]))),
        decreases cells.len() - i,
    {
        proof {
            assert(cm[i as int] == spans_model(cells@[i as int]@));
            lemma_cells_text_step(cm, i as int);
            lemma_cells_text_prefix(cm, i + 1);
        }
        let len = spans_bytes(&cells[i]);
        let part = slice_highlights(highlights, cursor, len);
        r.push(part);
        cursor = cursor + len;
        if i + 1 < cells.len() {
            proof {
                lemma_cells_text_step(cm, i + 1);
                lemma_cells_text_prefix(cm, i + 2);
            }
            cursor = cursor + 1;
        } else {
            proof {
                assert(cm.take(i + 1) =~= cm);
            }
        }
        i = i + 1;
    }
    proof {
        assert(parts_view(r@) =~= cell_parts(highlights@, cm, start as nat));
    }
    (r, cursor)
}

/// The highlights of each table cell: the header row first, then each row.
/// The table's text is its header cells, then each row on a line of its
/// own, with cells joined by spaces.
pub fn table_highlights(headers: &Vec<Vec<StyledSpan>>, rows: &Vec<Vec<Vec<StyledSpan>>>, highlights: &Vec<HighlightRange>) -> (r: Vec<Vec<Vec<HighlightRange>>>)
    requires
        byte_len(cells_text(cells_model(headers@)) + seq!['\n'] + rows_text(rows_model(rows@))) <= usize::MAX,
    ensures
        r.len() == rows.len() + 1,
        parts_view(r@[0]@) == cell_parts(highlights@, cells_model(headers@), 0),
        forall|k: int|
            0 <= k < rows.len() ==> #[trigger] parts_view(r@[k + 1]@) == cell_parts(
                highlights@,
                rows_model(rows@)[k],
                byte_len(cells_text(cells_model(headers@))) + 1 + row_offset(rows_model(rows@), k),
            ),
{
    let ghost hm = cells_model(headers@);
    let ghost rm = rows_model(rows@);
    proof {
        lemma_join_bytes(cells_text(hm), '\n', rows_text(rm));
    }
    let mut r: Vec<Vec<Vec<HighlightRange>>> = Vec::new();
    let (header_parts, header_end) = row_highlights(headers, highlights, 0);
    r.push(header_parts);
    let base = header_end + 1;
    let mut cursor: usize = base;
    let mut i: usize = 0;
    while i < rows.len()
        invariant
            i <= rows.len(),
            hm == cells_model(headers@),
            rm == rows_model(rows@),
            rm.len() == rows.len(),
            base == byte_len(cells_text(hm)) + 1,
            base + byte_len(rows_text(rm)) <= usize::MAX,
            i < rows.len() ==> cursor == base + row_offset(rm, i as int),
            r.len() == i + 1,
            parts_view(r@[0]@) == cell_parts(highlights@, hm, 0),
            forall|k: int|
                0 <= k < i ==> #[trigger] parts_view(r@[k + 1]@) == cell_parts(
                    highlights@,
                    rm[k],
                    (base + row_offset(rm, k)) as nat,
                ),
        decreases rows.len() - i,
    {
        proof {
            assert(rm[i as int] == cells_model(rows@[i as int]@));
            lemma_rows_text_step(rm, i as int);
            lemma_rows_text_prefix(rm, i + 1);
        }
        let (parts, end) = row_highlights(&rows[i], highlights, cursor);
        r.push(parts);
        if i + 1 < rows.len() {
            proof {
                lemma_rows_text_step(rm, i + 1);
                lemma_rows_text_prefix(rm, i + 2);
            }
            cursor = end + 1;
        }
        i = i + 1;
    }
    r
}

// ── Lists ──────────────────────────────────────────────────────────────────
/// Where the `k`-th of some list items joined by newlines starts, in bytes.
pub open spec fn item_offset(im: Seq<ItemModel>, k: int) -> nat {
    if k <= 0 {
        0
    } else {
        byte_len(items_text(im.take(k))) + 1
    }
}

/// Where the `c`-th child block of an item starts, in bytes after the
/// item's own text (each child is on a line of its own).
pub open spec fn child_offset(cs: Seq<BlockModel>, c: int) -> nat {
    byte_len(children_text(cs.take(c))) + 1
}

/// The highlights of a list item's own text and of each of its child
/// blocks, for an item whose text starts at byte `start`.
pub open spec fn item_parts(hs: Seq<HighlightRange>, it: ItemModel, start: nat) -> (Seq<HighlightRange>, Seq<Seq<HighlightRange>>) {
    let head = byte_len(spans_text(it.spans));
    (
        sliced_ranges(hs, start, head),
        Seq::new(
            it.children.len(),
            |c: int| sliced_ranges(hs, start + head + child_offset(it.children, c), byte_len(block_text(it.children[c]))),
        ),
    )
}

proof fn lemma_children_text_step(cs: Seq<BlockModel>, c: int)
    requires
        0 <= c < cs.len(),
    ensures
        byte_len(children_text(cs.take(c + 1))) == child_offset(cs, c) + byte_len(block_text(cs[c])),
{
    let t = cs.take(c + 1);
    assert(t.subrange(0, t.len() - 1) =~= cs.take(c));
    assert(t[t.len() - 1] == cs[c]);
    lemma_join_bytes(children_text(cs.take(c)), '\n', block_text(cs[c]));
}

proof fn lemma_children_text_prefix(cs: Seq<BlockModel>, c: int)
    requires
        0 <= c <= cs.len(),
    ensures
        byte_len(children_text(cs.take(c))) <= byte_len(children_text(cs)),
    decreases cs.len() - c,
{
    if c < cs.len() {
        lemma_children_text_prefix(cs, c + 1);
        lemma_children_text_step(cs, c);
    } else {
        assert(cs.take(c) =~= cs);
    }
}

proof fn lemma_item_text_bytes(it: ItemModel)
    ensures
        byte_len(item_text(it)) == byte_len(spans_text(it.spans)) + byte_len(children_text(it.children)),
{
    lemma_encode_concat(spans_text(it.spans), children_text(it.children));
}

proof fn lemma_items_text_step(im: Seq<ItemModel>, k: int)
    requires
        0 <= k < im.len(),
    ensures
        byte_len(items_text(im.take(k + 1))) == item_offset(im, k) + byte_len(item_text(im[k])),
{
    let t = im.take(k + 1);
    assert(t.subrange(0, t.len() - 1) =~= im.take(k));
    assert(t[t.len() - 1] == im[k]);
    if k > 0 {
        lemma_join_bytes(items_text(im.take(k)), '\n', item_text(im[k]));
    }
}

proof fn lemma_items_text_prefix(im: Seq<ItemModel>, k: int)
    requires
        0 <= k <= im.len(),
    ensures
        byte_len(items_text(im.take(k))) <= byte_len(items_text(im)),
    decreases im.len() - k,
{
    if k < im.len() {
        lemma_items_text_prefix(im, k + 1);
        lemma_items_text_step(im, k);
        if k == 0 {
            assert(im.take(0) =~= Seq::<ItemModel>::empty());
        }
    } else {
        assert(im.take(k) =~= im);
    }
}

/// The highlights of each child block of an item, for children whose text
/// starts at byte `start`; and the byte where it ends.
fn children_highlights(children: &Vec<Block>, highlights: &Vec<HighlightRange>, start: usize) -> (r: (Vec<Vec<HighlightRange>>, usize))
    requires
        start + byte_len(children_text(blocks_model(children@))) <= usize::MAX,
    ensures
        parts_view(r.0@) == Seq::new(
            children.len() as nat,
            |c: int| sliced_ranges(
                highlights@,
                (start + child_offset(blocks_model(children@), c)) as nat,
                byte_len(block_text(blocks_model(children@)[c])),
            ),
        ),
        r.1 == start + byte_len(children_text(blocks_model(children@))),
{
    let ghost cs = blocks_model(children@);
    proof {
        lemma_blocks_model_len(children@);
        assert(cs.take(0) =~= Seq::<BlockModel>::empty());
    }
    let mut r: Vec<Vec<HighlightRange>> = Vec::new();
    let mut cursor: usize = start;
    let mut i: usize = 0;
    while i < children.len()
        invariant
            i <= children.len(),
            cs == blocks_model(children@),
            cs.len() == children.len(),
            start + byte_len(children_text(cs)) <= usize::MAX,
            cursor == start + byte_len(children_text(cs.take(i as int))),
            r.len() == i,
            forall|j: int|
                0 <= j < i ==> #[trigger] r@[j]@ == sliced_ranges(
                    highlights@,
                    (start + child_offset(cs, j)) as nat,
                    byte_len(block_text(cs[j])),
                ),
        decreases children.len() - i,
    {
        proof {
            lemma_blocks_model_index(children@, i as int);
            lemma_children_text_step(cs, i as int);
            lemma_children_text_prefix(cs, i + 1);
        }
        let text = children[i].text_content();
        let len = text.as_str().len();
        cursor = cursor + 1;
        let part = slice_highlights(highlights, cursor, len);
        r.push(part);
        cursor = cursor + len;
        i = i + 1;
    }
    proof {
        assert(cs.take(children.len() as int) =~= cs);
        assert(parts_view(r@) =~= Seq::new(
            children.len() as nat,
            |c: int| sliced_ranges(highlights@, (start + child_offset(cs, c)) as nat, byte_len(block_text(cs[c]))),
        ));
    }
    (r, cursor)
}

/// The highlights of each list item's own text and of each of its child
/// blocks. A list's text is its items joined by newlines; an item's text is
/// its own text followed by each child block on a line of its own.
pub fn list_highlights(items: &Vec<ListItem>, highlights: &Vec<HighlightRange>) -> (r: Vec<(Vec<HighlightRange>, Vec<Vec<HighlightRange>>)>)
    requires
        byte_len(items_text(items_model(items@))) <= usize::MAX,
    ensures
        r.len() == items.len(),
        forall|k: int|
            #![trigger r@[k]]
            0 <= k < items.len() ==> (r@[k].0@, parts_view(r@[k].1@)) == item_parts(
                highlights@,
                items_model(items@)[k],
                item_offset(items_model(items@), k),
            ),
{
    let ghost im = items_model(items@);
    proof {
        lemma_items_model_len(items@);
    }
    let mut r: Vec<(Vec<HighlightRange>, Vec<Vec<HighlightRange>>)> = Vec::new();
    let mut cursor: usize = 0;
    let mut i: usize = 0;
    while i < items.len()
        invariant
            i <= items.len(),
            im == items_model(items@),
            im.len() == items.len(),
            byte_len(items_text(im)) <= usize::MAX,
            i < items.len() ==> cursor == item_offset(im, i as int),
            r.len() == i,
            forall|k: int|
                #![trigger r@[k]]
                0 <= k < i ==> (r@[k].0@, parts_view(r@[k].1@)) == item_parts(highlights@, im[k], item_offset(im, k)),
        decreases items.len() - i,
    {
        let item = &items[i];
        let ghost it = im[i as int];
        proof {
            lemma_items_model_index(items@, i as int);
            lemma_items_text_step(im, i as int);
            lemma_items_text_prefix(im, i + 1);
            lemma_item_text_bytes(it);
        }
        let head = spans_bytes(&item.spans);
        let own = slice_highlights(highlights, cursor, head);
        let (kids, end) = children_highlights(&item.children, highlights, cursor + head);
        proof {
            assert(it.spans == spans_model(item.spans@));
            assert(it.children == blocks_model(item.children@));
            lemma_blocks_model_len(item.children@);
            assert(parts_view(kids@) =~= item_parts(highlights@, it, item_offset(im, i as int)).1);
            assert(own@ == item_parts(highlights@, it, item_offset(im, i as int)).0);
        }
        r.push((own, kids));
        if i + 1 < items.len() {
            proof {
                lemma_items_text_step(im, i + 1);
                lemma_items_text_prefix(im, i + 2);
            }
            cursor = end + 1;
        }
        i = i + 1;
    }
    r
}

// ── Where each part's text lies in the block's text ───────────────────────
/// The UTF-8 bytes of `part` are those of `whole` from byte `offset` on.
pub open spec fn text_at(whole: Seq<char>, offset: nat, part: Seq<char>) -> bool {
    &&& offset + byte_len(part) <= byte_len(whole)
    &&& encode_utf8(whole).subrange(offset as int, (offset + byte_len(part)) as int) == encode_utf8(part)
}

/// The middle of three texts in a row lies after the first.
proof fn lemma_text_at_concat(a: Seq<char>, b: Seq<char>, c: Seq<char>)
    ensures
        text_at(a + b + c, byte_len(a), b),
{
    lemma_encode_concat(a, b);
    lemma_encode_concat(a + b, c);
    let ea = encode_utf8(a);
    let eb = encode_utf8(b);
    let ec = encode_utf8(c);
    assert((ea + eb + ec).subrange(ea.len() as int, (ea.len() + eb.len()) as int) =~= eb);
}

/// A text within a text within a whole lies within the whole.
proof fn lemma_text_at_trans(w: Seq<char>, o1: nat, x: Seq<char>, o2: nat, y: Seq<char>)
    requires
        text_at(w, o1, x),
        text_at(x, o2, y),
    ensures
        text_at(w, o1 + o2, y),
{
    let ew = encode_utf8(w);
    let ex = encode_utf8(x);
    let (a, b, n, lx) = (o1 as int, o2 as int, byte_len(y) as int, byte_len(x) as int);
    assert(ew.subrange(a + b, a + b + n) =~= ex.subrange(b, b + n)) by {
        assert forall|i: int| 0 <= i < n implies #[trigger] ew.subrange(a + b, a + b + n)[i] == ex.subrange(b, b + n)[i] by {
            assert(ew.subrange(a, a + lx)[b + i] == ex[b + i]);
        }
    }
}

/// A prefix of a text followed by the rest of it is the text.
proof fn lemma_prefix_split(p: Seq<char>, w: Seq<char>)
    requires
        p.is_prefix_of(w),
    ensures
        w == p + w.skip(p.len() as int),
{
    assert(w =~= p + w.skip(p.len() as int));
}

/// A whole text is its part, a separator, the next part and the rest.
proof fn lemma_part_after_separator(pre: Seq<char>, sep: char, part: Seq<char>, w: Seq<char>)
    requires
        sep == '\n' || sep == ' ',
        (pre + seq![sep] + part).is_prefix_of(w),
    ensures
        text_at(w, byte_len(pre) + 1, part),
{
    let p = pre + seq![sep] + part;
    lemma_prefix_split(p, w);
    assert(w == (pre + seq![sep]) + part + w.skip(p.len() as int)) by {
        assert(p + w.skip(p.len() as int) =~= (pre + seq![sep]) + part + w.skip(p.len() as int));
    }
    lemma_text_at_concat(pre + seq![sep], part, w.skip(p.len() as int));
    lemma_encode_concat(pre, seq![sep]);
    lemma_separator_byte(sep);
}

/// The first part of a whole text lies at its start.
proof fn lemma_part_at_start(part: Seq<char>, w: Seq<char>)
    requires
        part.is_prefix_of(w),
    ensures
        text_at(w, 0, part),
{
    lemma_prefix_split(part, w);
    lemma_text_at_concat(Seq::<char>::empty(), part, w.skip(part.len() as int));
    assert(Seq::<char>::empty() + part + w.skip(part.len() as int) =~= w);
    assert(encode_utf8(Seq::<char>::empty()) =~= Seq::<u8>::empty());
}

proof fn lemma_blocks_text_prefix_of(m: Seq<BlockModel>, k: int)
    requires
        1 <= k <= m.len(),
    ensures
        blocks_text(m.take(k)).is_prefix_of(blocks_text(m)),
    decreases m.len() - k,
{
    if k < m.len() {
        lemma_blocks_text_prefix_of(m, k + 1);
        lemma_blocks_text_step(m, k);
        let a = blocks_text(m.take(k));
        let b = blocks_text(m.take(k + 1));
        assert(a.is_prefix_of(b)) by {
            assert(b.subrange(0, a.len() as int) =~= a);
        }
        assert(a.is_prefix_of(blocks_text(m))) by {
            assert(blocks_text(m).subrange(0, a.len() as int) =~= b.subrange(0, a.len() as int));
        }
    } else {
        assert(m.take(k) =~= m);
        assert(blocks_text(m).subrange(0, blocks_text(m).len() as int) =~= blocks_text(m));
    }
}

/// Each quoted block's text lies in the quote's text where its highlights
/// are taken from (`quote_highlights`).
pub proof fn law_quote_parts_in_text(m: Seq<BlockModel>, j: int)
    requires
        0 <= j < m.len(),
    ensures
        text_at(
            block_text(BlockModel::BlockQuote { blocks: m }),
            joined_offset(m, j),
            block_text(m[j]),
        ),
{
    let w = blocks_text(m);
    lemma_blocks_text_step(m, j);
    lemma_blocks_text_prefix_of(m, j + 1);
    if j == 0 {
        lemma_part_at_start(block_text(m[j]), w);
    } else {
        lemma_part_after_separator(blocks_text(m.take(j)), '\n', block_text(m[j]), w);
    }
}

proof fn lemma_cells_text_prefix_of(cm: Seq<Seq<SpanModel>>, k: int)
    requires
        1 <= k <= cm.len(),
    ensures
        cells_text(cm.take(k)).is_prefix_of(cells_text(cm)),
    decreases cm.len() - k,
{
    if k < cm.len() {
        lemma_cells_text_prefix_of(cm, k + 1);
        let t = cm.take(k + 1);
        assert(t.subrange(0, t.len() - 1) =~= cm.take(k));
        let a = cells_text(cm.take(k));
        let b = cells_text(cm.take(k + 1));
        assert(a.is_prefix_of(b)) by {
            assert(b.subrange(0, a.len() as int) =~= a);
        }
        assert(a.is_prefix_of(cells_text(cm))) by {
            assert(cells_text(cm).subrange(0, a.len() as int) =~= b.subrange(0, a.len() as int));
        }
    } else {
        assert(cm.take(k) =~= cm);
        assert(cells_text(cm).subrange(0, cells_text(cm).len() as int) =~= cells_text(cm));
    }
}

/// Cell `j`'s text lies in the text of its row at `cell_offset`.
proof fn lemma_cell_in_row(cm: Seq<Seq<SpanModel>>, j: int)
    requires
        0 <= j < cm.len(),
    ensures
        text_at(cells_text(cm), cell_offset(cm, j), spans_text(cm[j])),
{
    let t = cm.take(j + 1);
    assert(t.subrange(0, t.len() - 1) =~= cm.take(j));
    assert(t[t.len() - 1] == cm[j]);
    lemma_cells_text_prefix_of(cm, j + 1);
    if j == 0 {
        lemma_part_at_start(spans_text(cm[j]), cells_text(cm));
    } else {
        lemma_part_after_separator(cells_text(cm.take(j)), ' ', spans_text(cm[j]), cells_text(cm));
    }
}

proof fn lemma_rows_text_prefix_of(rm: Seq<Seq<Seq<SpanModel>>>, k: int)
    requires
        1 <= k <= rm.len(),
    ensures
        rows_text(rm.take(k)).is_prefix_of(rows_text(rm)),
    decreases rm.len() - k,
{
    if k < rm.len() {
        lemma_rows_text_prefix_of(rm, k + 1);
        let t = rm.take(k + 1);
        assert(t.subrange(0, t.len() - 1) =~= rm.take(k));
        let a = rows_text(rm.take(k));
        let b = rows_text(rm.take(k + 1));
        assert(a.is_prefix_of(b)) by {
            assert(b.subrange(0, a.len() as int) =~= a);
        }
        assert(a.is_prefix_of(rows_text(rm))) by {
            assert(rows_text(rm).subrange(0, a.len() as int) =~= b.subrange(0, a.len() as int));
        }
    } else {
        assert(rm.take(k) =~= rm);
        assert(rows_text(rm).subrange(0, rows_text(rm).len() as int) =~= rows_text(rm));
    }
}

/// Row `r`'s text lies in the text of the rows at `row_offset`.
proof fn lemma_row_in_rows(rm: Seq<Seq<Seq<SpanModel>>>, r: int)
    requires
        0 <= r < rm.len(),
    ensures
        text_at(rows_text(rm), row_offset(rm, r), cells_text(rm[r])),
{
    let t = rm.take(r + 1);
    assert(t.subrange(0, t.len() - 1) =~= rm.take(r));
    assert(t[t.len() - 1] == rm[r]);
    lemma_rows_text_prefix_of(rm, r + 1);
    if r == 0 {
        lemma_part_at_start(cells_text(rm[r]), rows_text(rm));
    } else {
        lemma_part_after_separator(rows_text(rm.take(r)), '\n', cells_text(rm[r]), rows_text(rm));
    }
}

/// Each header cell's text lies in the table's text where its highlights
/// are taken from (`table_highlights`).
pub proof fn law_header_cells_in_text(hm: Seq<Seq<SpanModel>>, rm: Seq<Seq<Seq<SpanModel>>>, j: int)
    requires
        0 <= j < hm.len(),
    ensures
        text_at(block_text(BlockModel::Table { headers: hm, rows: rm }), cell_offset(hm, j), spans_text(hm[j])),
{
    let w = cells_text(hm) + seq!['\n'] + rows_text(rm);
    lemma_cell_in_row(hm, j);
    assert(cells_text(hm).is_prefix_of(w)) by {
        assert(w.subrange(0, cells_text(hm).len() as int) =~= cells_text(hm));
    }
    lemma_part_at_start(cells_text(hm), w);
    lemma_text_at_trans(w, 0, cells_text(hm), cell_offset(hm, j), spans_text(hm[j]));
}

/// Each cell's text in row `r` lies in the table's text where its
/// highlights are taken from (`table_highlights`).
pub proof fn law_row_cells_in_text(hm: Seq<Seq<SpanModel>>, rm: Seq<Seq<Seq<SpanModel>>>, r: int, j: int)
    requires
        0 <= r < rm.len(),
        0 <= j < rm[r].len(),
    ensures
        text_at(
            block_text(BlockModel::Table { headers: hm, rows: rm }),
            byte_len(cells_text(hm)) + 1 + row_offset(rm, r) + cell_offset(rm[r], j),
            spans_text(rm[r][j]),
        ),
{
    let pre = cells_text(hm) + seq!['\n'];
    let w = cells_text(hm) + seq!['\n'] + rows_text(rm);
    assert(w =~= pre + rows_text(rm) + Seq::<char>::empty());
    lemma_text_at_concat(pre, rows_text(rm), Seq::<char>::empty());
    lemma_encode_concat(cells_text(hm), seq!['\n']);
    lemma_separator_byte('\n');
    lemma_row_in_rows(rm, r);
    lemma_cell_in_row(rm[r], j);
    lemma_text_at_trans(w, byte_len(pre), rows_text(rm), row_offset(rm, r), cells_text(rm[r]));
    lemma_text_at_trans(w, byte_len(pre) + row_offset(rm, r), cells_text(rm[r]), cell_offset(rm[r], j), spans_text(rm[r][j]));
}

proof fn lemma_items_text_prefix_of(im: Seq<ItemModel>, k: int)
    requires
        1 <= k <= im.len(),
    ensures
        items_text(im.take(k)).is_prefix_of(items_text(im)),
    decreases im.len() - k,
{
    if k < im.len() {
        lemma_items_text_prefix_of(im, k + 1);
        let t = im.take(k + 1);
        assert(t.subrange(0, t.len() - 1) =~= im.take(k));
        let a = items_text(im.take(k));
        let b = items_text(im.take(k + 1));
        assert(a.is_prefix_of(b)) by {
            assert(b.subrange(0, a.len() as int) =~= a);
        }
        assert(a.is_prefix_of(items_text(im))) by {
            assert(items_text(im).subrange(0, a.len() as int) =~= b.subrange(0, a.len() as int));
        }
    } else {
        assert(im.take(k) =~= im);
        assert(items_text(im).subrange(0, items_text(im).len() as int) =~= items_text(im));
    }
}

/// Item `k`'s text lies in the list's text at `item_offset`.
proof fn lemma_item_in_list(im: Seq<ItemModel>, k: int)
    requires
        0 <= k < im.len(),
    ensures
        text_at(items_text(im), item_offset(im, k), item_text(im[k])),
{
    let t = im.take(k + 1);
    assert(t.subrange(0, t.len() - 1) =~= im.take(k));
    assert(t[t.len() - 1] == im[k]);
    lemma_items_text_prefix_of(im, k + 1);
    if k == 0 {
        lemma_part_at_start(item_text(im[k]), items_text(im));
    } else {
        lemma_part_after_separator(items_text(im.take(k)), '\n', item_text(im[k]), items_text(im));
    }
}

proof fn lemma_children_text_prefix_of(cs: Seq<BlockModel>, c: int)
    requires
        0 <= c <= cs.len(),
    ensures
        children_text(cs.take(c)).is_prefix_of(children_text(cs)),
    decreases cs.len() - c,
{
    if c < cs.len() {
        lemma_children_text_prefix_of(cs, c + 1);
        let t = cs.take(c + 1);
        assert(t.subrange(0, t.len() - 1) =~= cs.take(c));
        let a = children_text(cs.take(c));
        let b = children_text(cs.take(c + 1));
        assert(a.is_prefix_of(b)) by {
            assert(b.subrange(0, a.len() as int) =~= a);
        }
        assert(a.is_prefix_of(children_text(cs))) by {
            assert(children_text(cs).subrange(0, a.len() as int) =~= b.subrange(0, a.len() as int));
        }
    } else {
        assert(cs.take(c) =~= cs);
        assert(children_text(cs).subrange(0, children_text(cs).len() as int) =~= children_text(cs));
    }
}

/// Each list item's own text lies in the list's text where its highlights
/// are taken from (`list_highlights`).
pub proof fn law_list_items_in_text(ordered: bool, start: Option<u64>, im: Seq<ItemModel>, k: int)
    requires
        0 <= k < im.len(),
    ensures
        text_at(
            block_text(BlockModel::List { ordered, start, items: im }),
            item_offset(im, k),
            spans_text(im[k].spans),
        ),
{
    let it = im[k];
    lemma_item_in_list(im, k);
    assert(spans_text(it.spans).is_prefix_of(item_text(it))) by {
        assert(item_text(it).subrange(0, spans_text(it.spans).len() as int) =~= spans_text(it.spans));
    }
    lemma_part_at_start(spans_text(it.spans), item_text(it));
    lemma_text_at_trans(items_text(im), item_offset(im, k), item_text(it), 0, spans_text(it.spans));
}

/// Each child block of a list item lies in the list's text where its
/// highlights are taken from (`list_highlights`).
pub proof fn law_list_children_in_text(ordered: bool, start: Option<u64>, im: Seq<ItemModel>, k: int, c: int)
    requires
        0 <= k < im.len(),
        0 <= c < im[k].children.len(),
    ensures
        text_at(
            block_text(BlockModel::List { ordered, start, items: im }),
            item_offset(im, k) + byte_len(spans_text(im[k].spans)) + child_offset(im[k].children, c),
            block_text(im[k].children[c]),
        ),
{
    let it = im[k];
    let cs = it.children;
    lemma_item_in_list(im, k);
    assert(item_text(it) =~= spans_text(it.spans) + children_text(cs) + Seq::<char>::empty());
    lemma_text_at_concat(spans_text(it.spans), children_text(cs), Seq::<char>::empty());
    let t = cs.take(c + 1);
    assert(t.subrange(0, t.len() - 1) =~= cs.take(c));
    assert(t[t.len() - 1] == cs[c]);
    lemma_children_text_prefix_of(cs, c + 1);
    lemma_part_after_separator(children_text(cs.take(c)), '\n', block_text(cs[c]), children_text(cs));
    lemma_text_at_trans(items_text(im), item_offset(im, k), item_text(it), byte_len(spans_text(it.spans)), children_text(cs));
    lemma_text_at_trans(
        items_text(im),
        item_offset(im, k) + byte_len(spans_text(it.spans)),
        children_text(cs),
        child_offset(cs, c),
        block_text(cs[c]),
    );
}

} // verus!
