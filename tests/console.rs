use vga_console::vga_buffer::{
    Color, ColorCode, ScreenChar, Writer, _print, BUFFER_HEIGHT, BUFFER_WIDTH, PLACEHOLDER,
};

fn yellow_on_black() -> ColorCode {
    ColorCode::new(Color::Yellow, Color::Black)
}

fn cell(b: u8, color: ColorCode) -> ScreenChar {
    ScreenChar { ascii_character: b, color_code: color }
}

fn row_text(w: &Writer, row: usize) -> Vec<u8> {
    (0..BUFFER_WIDTH).map(|c| w.read_char(row, c).ascii_character).collect()
}

#[test]
fn color_code_packs_background_high() {
    assert_eq!(ColorCode::new(Color::Yellow, Color::Black).0, 0x0e);
    assert_eq!(ColorCode::new(Color::White, Color::Blue).0, 0x1f);
    assert_eq!(ColorCode::new(Color::Black, Color::White).0, 0xf0);
    assert_eq!(ColorCode::new(Color::LightGreen, Color::Red).0, 0x4a);
}

#[test]
fn new_writer_is_blank() {
    let w = Writer::new(yellow_on_black());
    assert_eq!(w.column_position(), 0);
    assert_eq!(w.color_code(), yellow_on_black());
    for r in 0..BUFFER_HEIGHT {
        for c in 0..BUFFER_WIDTH {
            assert_eq!(w.read_char(r, c), cell(b' ', yellow_on_black()));
        }
    }
}

#[test]
fn hello_world_on_bottom_row() {
    let color = yellow_on_black();
    let mut w = Writer::new(color);
    w.write_string("Hello World!");
    let text = b"Hello World!";
    for c in 0..12 {
        let got = w.read_char(BUFFER_HEIGHT - 1, c);
        assert_eq!(got, cell(text[c], color));
        assert_eq!(got.color_code.0, (0u8 << 4) | 14u8);
    }
    for c in 12..BUFFER_WIDTH {
        assert_eq!(w.read_char(BUFFER_HEIGHT - 1, c), cell(b' ', color));
    }
    assert_eq!(w.column_position(), 12);
}

#[test]
fn newline_moves_text_up() {
    let color = yellow_on_black();
    let mut w = Writer::new(color);
    w.write_string("ab\ncd");
    assert_eq!(&row_text(&w, BUFFER_HEIGHT - 2)[..3], b"ab ");
    assert_eq!(&row_text(&w, BUFFER_HEIGHT - 1)[..3], b"cd ");
    assert_eq!(w.column_position(), 2);
}

#[test]
fn text_reads_back_with_wraps_and_newlines() {
    let color = yellow_on_black();
    let mut w = Writer::new(color);
    let long: String = (0..BUFFER_WIDTH + 5).map(|i| (b'a' + (i % 26) as u8) as char).collect();
    let text = format!("first\n{}", long);
    w.write_string(&text);
    assert_eq!(&row_text(&w, BUFFER_HEIGHT - 3)[..6], b"first ");
    assert_eq!(row_text(&w, BUFFER_HEIGHT - 2), long.as_bytes()[..BUFFER_WIDTH].to_vec());
    assert_eq!(&row_text(&w, BUFFER_HEIGHT - 1)[..5], &long.as_bytes()[BUFFER_WIDTH..]);
    assert_eq!(row_text(&w, BUFFER_HEIGHT - 1)[5], b' ');
    assert_eq!(w.column_position(), 5);
}

#[test]
fn one_character_past_a_full_row_scrolls_once() {
    let color = yellow_on_black();
    let mut w = Writer::new(color);
    w.write_string("top");
    for _ in 0..BUFFER_HEIGHT - 1 {
        w.write_byte(b'\n');
    }
    assert_eq!(&row_text(&w, 0)[..3], b"top");
    let line: String = (0..BUFFER_WIDTH + 1).map(|i| (b'A' + (i % 26) as u8) as char).collect();
    w.write_string(&line);
    assert_eq!(row_text(&w, 0), vec![b' '; BUFFER_WIDTH]);
    for r in 0..BUFFER_HEIGHT - 2 {
        assert_eq!(row_text(&w, r), vec![b' '; BUFFER_WIDTH]);
    }
    assert_eq!(row_text(&w, BUFFER_HEIGHT - 2), line.as_bytes()[..BUFFER_WIDTH].to_vec());
    assert_eq!(w.read_char(BUFFER_HEIGHT - 1, 0), cell(line.as_bytes()[BUFFER_WIDTH], color));
    for c in 1..BUFFER_WIDTH {
        assert_eq!(w.read_char(BUFFER_HEIGHT - 1, c), cell(b' ', color));
    }
    assert_eq!(w.column_position(), 1);
}

#[test]
fn unprintable_bytes_show_placeholder() {
    let color = yellow_on_black();
    let mut w = Writer::new(color);
    w.write_string("\u{1}\u{7f}é~ ");
    let row = row_text(&w, BUFFER_HEIGHT - 1);
    assert_eq!(&row[..6], &[PLACEHOLDER, PLACEHOLDER, PLACEHOLDER, PLACEHOLDER, b'~', b' ']);
    assert_eq!(PLACEHOLDER, 0xfe);
    assert_eq!(w.column_position(), 6);
}

#[test]
fn write_byte_passes_raw_byte() {
    let color = yellow_on_black();
    let mut w = Writer::new(color);
    w.write_byte(0x01);
    assert_eq!(w.read_char(BUFFER_HEIGHT - 1, 0), cell(0x01, color));
    assert_eq!(w.column_position(), 1);
}

#[test]
fn clear_row_blanks_with_current_attribute() {
    let color = ColorCode::new(Color::White, Color::Blue);
    let mut w = Writer::new(color);
    w.write_string("keep\nwipe me");
    w.clear_row(BUFFER_HEIGHT - 1);
    for c in 0..BUFFER_WIDTH {
        assert_eq!(w.read_char(BUFFER_HEIGHT - 1, c), cell(b' ', color));
    }
    assert_eq!(&row_text(&w, BUFFER_HEIGHT - 2)[..4], b"keep");
    assert_eq!(w.column_position(), 7);
}

#[test]
fn new_line_blanks_bottom_and_resets_column() {
    let color = yellow_on_black();
    let mut w = Writer::new(color);
    w.write_string("xyz");
    w.new_line();
    assert_eq!(&row_text(&w, BUFFER_HEIGHT - 2)[..3], b"xyz");
    assert_eq!(row_text(&w, BUFFER_HEIGHT - 1), vec![b' '; BUFFER_WIDTH]);
    assert_eq!(w.column_position(), 0);
}

#[test]
fn print_writes_formatted_text() {
    let color = yellow_on_black();
    let mut w = Writer::new(color);
    _print(&mut w, &format!("{}\n", 4444));
    assert_eq!(&row_text(&w, BUFFER_HEIGHT - 2)[..5], b"4444 ");
    assert_eq!(w.column_position(), 0);
}
