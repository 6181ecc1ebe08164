use mdv::blocks::{Block, HeadingLevel};
use mdv::parser::parse;

#[test]
fn test_headings() {
    let blocks = parse("# Hello\n## World");
    assert_eq!(blocks.len(), 2);
    assert!(matches!(&blocks[0], Block::Heading { level: HeadingLevel::H1, .. }));
    assert!(matches!(&blocks[1], Block::Heading { level: HeadingLevel::H2, .. }));
}

#[test]
fn test_paragraph_with_inline_styles() {
    let blocks = parse("Hello **bold** and *italic*");
    assert_eq!(blocks.len(), 1);
    if let Block::Paragraph { spans } = &blocks[0] {
        assert!(spans.len() >= 3);
        assert!(!spans[0].style.bold);
        assert!(spans.iter().any(|s| s.style.bold && s.text == "bold"));
        assert!(spans.iter().any(|s| s.style.italic && s.text == "italic"));
    } else {
        panic!("expected paragraph");
    }
}

#[test]
fn test_code_block() {
    let blocks = parse("```rust\nfn main() {}\n```");
    assert_eq!(blocks.len(), 1);
    if let Block::CodeBlock { lang, code } = &blocks[0] {
        assert_eq!(lang.as_deref(), Some("rust"));
        assert_eq!(code, "fn main() {}");
    } else {
        panic!("expected code block");
    }
}

#[test]
fn test_unordered_list() {
    let blocks = parse("- one\n- two\n- three");
    assert_eq!(blocks.len(), 1);
    if let Block::List { ordered, items, .. } = &blocks[0] {
        assert!(!ordered);
        assert_eq!(items.len(), 3);
    } else {
        panic!("expected list");
    }
}

#[test]
fn test_ordered_list() {
    let blocks = parse("1. first\n2. second");
    assert_eq!(blocks.len(), 1);
    if let Block::List { ordered, start, items, .. } = &blocks[0] {
        assert!(ordered);
        assert_eq!(*start, Some(1));
        assert_eq!(items.len(), 2);
    } else {
        panic!("expected list");
    }
}

#[test]
fn test_table() {
    let md = "| A | B |\n|---|---|\n| 1 | 2 |\n| 3 | 4 |";
    let blocks = parse(md);
    assert_eq!(blocks.len(), 1);
    if let Block::Table { headers, rows } = &blocks[0] {
        assert_eq!(headers.len(), 2);
        assert_eq!(rows.len(), 2);
        assert_eq!(rows[0].len(), 2);
    } else {
        panic!("expected table");
    }
}

#[test]
fn test_blockquote() {
    let blocks = parse("> quoted text");
    assert_eq!(blocks.len(), 1);
    if let Block::BlockQuote { blocks: inner } = &blocks[0] {
        assert_eq!(inner.len(), 1);
        assert!(matches!(&inner[0], Block::Paragraph { .. }));
    } else {
        panic!("expected blockquote");
    }
}

#[test]
fn test_thematic_break() {
    let blocks = parse("above\n\n---\n\nbelow");
    assert_eq!(blocks.len(), 3);
    assert!(matches!(&blocks[1], Block::ThematicBreak));
}

#[test]
fn test_inline_code() {
    let blocks = parse("Use `println!` here");
    if let Block::Paragraph { spans } = &blocks[0] {
        assert!(spans.iter().any(|s| s.style.code && s.text == "println!"));
    } else {
        panic!("expected paragraph");
    }
}

#[test]
fn test_link() {
    let blocks = parse("[click](https://example.com)");
    if let Block::Paragraph { spans } = &blocks[0] {
        let link_span = spans.iter().find(|s| s.link_url.is_some()).unwrap();
        assert_eq!(link_span.text, "click");
        assert_eq!(link_span.link_url.as_deref(), Some("https://example.com"));
    } else {
        panic!("expected paragraph");
    }
}

#[test]
fn test_nested_list() {
    let blocks = parse("- First\n  - Nested A\n  - Nested B\n- Second");
    assert_eq!(blocks.len(), 1);
    if let Block::List { items, .. } = &blocks[0] {
        assert_eq!(items.len(), 2);
        // First item has children (nested list)
        assert_eq!(items[0].children.len(), 1);
        if let Block::List { items: nested, .. } = &items[0].children[0] {
            assert_eq!(nested.len(), 2);
        } else {
            panic!("expected nested list");
        }
        // Second item has no children
        assert!(items[1].children.is_empty());
    } else {
        panic!("expected list");
    }
}

#[test]
fn test_nested_blockquote() {
    let blocks = parse("> Outer\n>> Nested");
    assert_eq!(blocks.len(), 1);
    if let Block::BlockQuote { blocks: outer } = &blocks[0] {
        // Should contain a paragraph and a nested blockquote
        assert!(outer.iter().any(|b| matches!(b, Block::BlockQuote { .. })),
            "expected nested blockquote");
    } else {
        panic!("expected blockquote");
    }
}

#[test]
fn test_list_text_content_includes_children() {
    let blocks = parse("- First\n  - Nested\n- Second");
    let text = blocks[0].text_content();
    assert!(text.contains("First"), "should contain top-level item");
    assert!(text.contains("Nested"), "should contain nested item");
    assert!(text.contains("Second"), "should contain second item");
}

#[test]
fn test_html_heading_block() {
    let blocks = parse("<h2 id=\"overview\">Overview</h2>\n\nSome text.");
    assert_eq!(blocks.len(), 2);
    if let Block::Heading { level, spans, id } = &blocks[0] {
        assert_eq!(*level, HeadingLevel::H2);
        assert_eq!(spans[0].text, "Overview");
        assert_eq!(id.as_deref(), Some("overview"));
    } else {
        panic!("expected heading from HTML block, got {:?}", blocks[0]);
    }
}

#[test]
fn test_html_heading_h3() {
    let blocks = parse("<h3 id=\"foo\">Section Title</h3>");
    assert_eq!(blocks.len(), 1);
    if let Block::Heading { level, spans, id } = &blocks[0] {
        assert_eq!(*level, HeadingLevel::H3);
        assert_eq!(spans[0].text, "Section Title");
        assert_eq!(id.as_deref(), Some("foo"));
    } else {
        panic!("expected h3 heading");
    }
}

#[test]
fn test_inline_html_em() {
    let blocks = parse("This is <em>emphasized</em> text.");
    assert_eq!(blocks.len(), 1);
    if let Block::Paragraph { spans } = &blocks[0] {
        assert!(spans.iter().any(|s| s.style.italic && s.text == "emphasized"),
            "expected italic span, got {:?}", spans);
    } else {
        panic!("expected paragraph");
    }
}

#[test]
fn test_html_div_becomes_paragraph() {
    let blocks = parse("<div>\nSome content\n</div>");
    assert!(blocks.iter().any(|b| {
        if let Block::Paragraph { spans } = b {
            spans.iter().any(|s| s.text.contains("Some content"))
        } else { false }
    }), "expected paragraph with div content");
}

#[test]
fn test_image_block() {
    let blocks = parse("![Alt text](image.png)");
    assert_eq!(blocks.len(), 1);
    if let Block::Image { alt, url } = &blocks[0] {
        assert_eq!(alt, "Alt text");
        assert_eq!(url, "image.png");
    } else {
        panic!("expected image block, got {:?}", blocks[0]);
    }
}
