use mdv::terminal::{diacritic, Terminal, MAX_IMAGE_ROWS};

#[test]
fn geometry_of_the_content_area() {
    let t = Terminal::new(80, 24, 10, 20);
    assert_eq!(t.content_rows(), 22);
    assert_eq!(t.content_width_px(), 800);
    assert_eq!(t.content_height_px(), 440);
    let tiny = Terminal::new(5, 1, 8, 16);
    assert_eq!(tiny.content_rows(), 0);
    assert_eq!(tiny.content_height_px(), 0);
    assert_eq!(MAX_IMAGE_ROWS, 10);
}

#[test]
fn diacritics_wrap_around_the_table() {
    assert_eq!(diacritic(0), '\u{0305}');
    assert_eq!(diacritic(1), '\u{030D}');
    assert_eq!(diacritic(56), '\u{05A8}');
    assert_eq!(diacritic(57), '\u{0305}');
}

#[test]
fn placeholder_row_encodes_id_and_row() {
    let mut t = Terminal::new(80, 24, 10, 20);
    t.print_placeholder_row(0x01020304, 2, 3);
    let out = t.flush();
    assert_eq!(
        out,
        "\x1b[38;2;2;3;4m\u{10EEEE}\u{030E}\u{0305}\u{030D}\u{10EEEE}\u{10EEEE}\x1b[39m"
    );
    assert_eq!(t.flush(), "");
}

#[test]
fn placeholder_row_without_columns() {
    let mut t = Terminal::new(80, 24, 10, 20);
    t.print_placeholder_row(1000, 0, 0);
    assert_eq!(t.flush(), "\x1b[38;2;0;3;232m\u{10EEEE}\u{0305}\u{0305}\u{0305}\x1b[39m");
}

#[test]
fn image_commands() {
    let mut t = Terminal::new(80, 24, 10, 20);
    t.delete_image(1001);
    assert_eq!(t.flush(), "\x1b_Ga=d,d=I,i=1001;\x1b\\");
    t.delete_all_images();
    assert_eq!(t.flush(), "\x1b_Ga=d;\x1b\\");
}

#[test]
fn cursor_and_clipboard_commands() {
    let mut t = Terminal::new(80, 24, 10, 20);
    t.set_pointer_cursor();
    t.set_default_cursor();
    assert_eq!(t.flush(), "\x1b]22;pointer\x07\x1b]22;default\x07");
    t.copy_to_clipboard("hi");
    assert_eq!(t.flush(), "\x1b]52;c;aGk=\x07");
}

#[test]
fn clear_content_blanks_each_content_row() {
    let mut t = Terminal::new(80, 4, 10, 20);
    t.clear_content();
    assert_eq!(t.flush(), "\x1b[1;1H\x1b[2K\x1b[2;1H\x1b[2K");
}

#[test]
fn update_size_and_cleanup() {
    let mut t = Terminal::new(80, 24, 10, 20);
    t.update_size(100, 30, 9, 18);
    assert_eq!((t.cols, t.rows, t.cell_width, t.cell_height), (100, 30, 9, 18));
    t.cleanup();
    assert_eq!(t.flush(), "\x1b_Ga=d;\x1b\\\x1b[?1003l\x1b[?1006l");
}

#[test]
fn stdout_mut_collects_raw_output() {
    let mut t = Terminal::new(80, 24, 10, 20);
    t.stdout_mut().push_str("abc");
    assert_eq!(t.flush(), "abc");
}

fn noise(len: usize) -> Vec<u8> {
    let mut x: u32 = 12345;
    (0..len)
        .map(|_| {
            x = x.wrapping_mul(1103515245).wrapping_add(12345);
            (x >> 16) as u8
        })
        .collect()
}

#[test]
fn transmit_small_image_in_one_command() {
    let mut t = Terminal::new(80, 24, 10, 20);
    assert!(t.transmit_virtual(5, &[1, 2, 3, 255], 1, 1).is_ok());
    let out = t.flush();
    assert!(out.starts_with("\x1b_Gi=5,a=T,U=1,f=100,q=2,s=1,v=1,m=0;"));
    assert!(out.ends_with("\x1b\\"));
    assert_eq!(out.matches("\x1b_G").count(), 1);
}

#[test]
fn transmit_large_image_in_chunks() {
    let mut t = Terminal::new(80, 24, 10, 20);
    let pixels = noise(64 * 64 * 4);
    assert!(t.transmit_virtual(7, &pixels, 64, 64).is_ok());
    let out = t.flush();
    assert!(out.starts_with("\x1b_Gi=7,a=T,U=1,f=100,q=2,s=64,v=64,m=1;"));
    assert!(out.contains("\x1b_Gm=1;") || out.contains("\x1b_Gm=0;"));
    assert!(out.contains("\x1b_Gm=0;"));
    let chunks = out.matches("\x1b_G").count();
    assert!(chunks >= 2);
    // every payload but the last carries 3072 bytes of PNG, i.e. 4096 base64 characters
    let first_payload = out.split(';').nth(1).unwrap();
    assert!(first_payload.starts_with("iVBORw0KGgo"));
}

#[test]
fn transmit_refused_image_sends_nothing() {
    let mut t = Terminal::new(80, 24, 10, 20);
    assert!(t.transmit_virtual(5, &[], 0, 0).is_err());
    assert_eq!(t.flush(), "");
}
