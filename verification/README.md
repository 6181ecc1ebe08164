# mdv

A graphical Markdown viewer for terminals that speak the Kitty graphics
protocol (Ghostty, Kitty, WezTerm): headings, code blocks, tables and images
are drawn as pixel images, text stays searchable and links stay clickable.

## Layout

- `src/` is the library, written in Verus. Its functions are verified
  against their contracts, except the small wrappers marked
  `#[verifier::external_body]` that call std, pulldown-cmark, syntect, image
  and base64: their contracts are trusted, and each one's doc comment says
  what it claims of the call it makes.
  - `parser`, `markdown`, `doc_model`, `blocks`: Markdown text to blocks.
  - `viewport`, `navigation`, `table_layout`: the vertical layout of the
    rendered document, scrolling, image chunks, search matches.
  - `part_highlights`, `pixels`, `graphics`: search highlights per drawn part
    and the pixel operations of the renderer.
  - `terminal`, `status`: the escape sequences sent to the terminal and the
    status bar.
  - `source`: the raw source view (cursor, selection, scrolling).
  - `session`: key and mouse commands, search, links, waiting for input.
  - `keys`, `config`, `theme`, `font_match`, `highlight`, `render`, `text`.
- `app/` is the program around it: terminal I/O, the event loop, reading the
  configuration file, and text layout and rasterization with cosmic-text.
- `tests/` runs the library on concrete inputs.

## Notes

- `render::estimate_heading_rows` computes the text-mode height of a heading
  in exact fractions. A float computation of the same formula can round a
  product just past a whole number and get more rows: a ten-character
  level-one heading 198 pixels wide with 20-pixel cells takes 3 rows here,
  and 5 with `f32` arithmetic.
