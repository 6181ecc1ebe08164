//! A Markdown viewer's core: the document model, the Markdown-to-block
//! builder, key bindings, themes, configuration resolution and the layout
//! arithmetic behind scrolling and image placement.

pub mod text;
pub mod blocks;
pub mod markdown;
pub mod doc_model;
pub mod parser;
pub mod keys;
pub mod theme;
pub mod config;
pub mod render;
pub mod graphics;
pub mod terminal;
pub mod viewport;
pub mod navigation;
pub mod source;
pub mod session;
pub mod status;
pub mod highlight;
pub mod part_highlights;
pub mod pixels;
pub mod table_layout;
pub mod font_match;
