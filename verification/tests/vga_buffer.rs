use kernel_shell::vga_buffer::{
    backspace, clear_screen, print_colored, set_panic_color, Color, ColorCode, ScreenChar, Writer,
    BUFFER_CELLS, BUFFER_HEIGHT, BUFFER_WIDTH,
};

fn blank_screen(color: u8) -> Writer {
    Writer::new(vec![ScreenChar { ascii_character: b' ', color_code: ColorCode(color) }; BUFFER_CELLS])
}

fn row_text(w: &Writer, row: usize) -> Vec<u8> {
    (0..BUFFER_WIDTH).map(|c| w.cell(row, c).ascii_character).collect()
}

fn bottom_text(w: &Writer) -> String {
    String::from_utf8(row_text(w, BUFFER_HEIGHT - 1)).unwrap().trim_end().to_string()
}

#[test]
fn color_code_packs_background_high_foreground_low() {
    assert_eq!(ColorCode::new(Color::Yellow, Color::Black), ColorCode(0x0e));
    assert_eq!(ColorCode::new(Color::White, Color::Red), ColorCode(0x4f));
    assert_eq!(ColorCode::new(Color::LightGray, Color::Blue), ColorCode(0x17));
    let c = ColorCode::new(Color::Pink, Color::Cyan);
    assert_eq!(c.0 >> 4, 3);
    assert_eq!(c.0 & 0xf, 13);
}

#[test]
fn color_codes_and_names() {
    assert_eq!(Color::Black.code(), 0);
    assert_eq!(Color::White.code(), 15);
    assert_eq!(Color::LightGray.name(), "LightGray");
    for n in 0..16u8 {
        assert_eq!(Color::from_code(n).code(), n);
    }
}

#[test]
fn new_writer_starts_at_column_zero_yellow_on_black() {
    let w = blank_screen(0x07);
    assert_eq!(w.column_position(), 0);
    assert_eq!(w.color_code(), ColorCode(0x0e));
    assert_eq!(w.cell(0, 0), ScreenChar { ascii_character: b' ', color_code: ColorCode(0x07) });
}

#[test]
fn write_byte_goes_on_bottom_row_in_current_color() {
    let mut w = blank_screen(0x07);
    w.write_byte(b'A');
    assert_eq!(w.cell(24, 0), ScreenChar { ascii_character: b'A', color_code: ColorCode(0x0e) });
    assert_eq!(w.column_position(), 1);
}

#[test]
fn newline_scrolls_rows_up() {
    let mut w = blank_screen(0x07);
    w.write_string("first\nsecond");
    assert_eq!(String::from_utf8(row_text(&w, 23)).unwrap().trim_end(), "first");
    assert_eq!(bottom_text(&w), "second");
    assert_eq!(w.column_position(), 6);
    w.new_line();
    assert_eq!(String::from_utf8(row_text(&w, 22)).unwrap().trim_end(), "first");
    assert_eq!(String::from_utf8(row_text(&w, 23)).unwrap().trim_end(), "second");
    assert_eq!(bottom_text(&w), "");
    assert_eq!(w.column_position(), 0);
}

#[test]
fn full_row_wraps_to_a_new_line() {
    let mut w = blank_screen(0x07);
    for _ in 0..80 {
        w.write_byte(b'x');
    }
    assert_eq!(w.column_position(), 80);
    w.write_byte(b'y');
    assert_eq!(row_text(&w, 23), vec![b'x'; 80]);
    assert_eq!(bottom_text(&w), "y");
    assert_eq!(w.column_position(), 1);
}

#[test]
fn non_ascii_bytes_become_block_characters() {
    let mut w = blank_screen(0x07);
    w.write_string("a\u{e9}b\t");
    let row = row_text(&w, 24);
    assert_eq!(&row[..5], &[b'a', 0xfe, 0xfe, b'b', 0xfe]);
    assert_eq!(w.column_position(), 5);
}

#[test]
fn backspace_erases_previous_character() {
    let mut w = blank_screen(0x07);
    w.write_string("ab");
    backspace(&mut w);
    assert_eq!(w.column_position(), 1);
    assert_eq!(w.cell(24, 1), ScreenChar { ascii_character: b' ', color_code: ColorCode(0x0e) });
    assert_eq!(w.cell(24, 0).ascii_character, b'a');
}

#[test]
fn backspace_at_line_start_does_nothing() {
    let mut w = blank_screen(0x07);
    let before: Vec<ScreenChar> = w.cells().clone();
    w.backspace();
    assert_eq!(w.column_position(), 0);
    assert_eq!(w.cells(), &before);
}

#[test]
fn clear_screen_blanks_everything() {
    let mut w = blank_screen(0x07);
    w.write_string("hello\nworld");
    clear_screen(&mut w);
    assert_eq!(w.column_position(), 0);
    for cell in w.cells() {
        assert_eq!(*cell, ScreenChar { ascii_character: b' ', color_code: ColorCode(0x0e) });
    }
}

#[test]
fn clear_row_blanks_one_row() {
    let mut w = blank_screen(0x07);
    w.write_string("abc");
    w.clear_row(24);
    assert_eq!(bottom_text(&w), "");
    assert_eq!(w.column_position(), 3);
}

#[test]
fn print_colored_restores_previous_color() {
    let mut w = blank_screen(0x07);
    print_colored(&mut w, "hi", Color::Red, Color::Blue);
    assert_eq!(w.cell(24, 0), ScreenChar { ascii_character: b'h', color_code: ColorCode(0x14) });
    assert_eq!(w.color_code(), ColorCode(0x0e));
    w.write_byte(b'!');
    assert_eq!(w.cell(24, 2).color_code, ColorCode(0x0e));
}

#[test]
fn panic_color_is_white_on_red() {
    let mut w = blank_screen(0x07);
    set_panic_color(&mut w);
    assert_eq!(w.color_code(), ColorCode(0x4f));
    w.write_byte(b'P');
    assert_eq!(w.cell(24, 0).color_code, ColorCode(0x4f));
}
