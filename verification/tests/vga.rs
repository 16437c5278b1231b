use vga_text::buffer::{FrameBuffer, ScreenChar, BUFFER_HEIGHT, BUFFER_WIDTH};
use vga_text::color::{Color, ColorCode};
use vga_text::writer::Writer;

fn fresh_writer() -> Writer {
    Writer::new(FrameBuffer::new(), ColorCode::new(Color::Yellow, Color::Black))
}

#[test]
fn color_codes_are_in_hardware_order() {
    assert_eq!(Color::Black.code(), 0);
    assert_eq!(Color::Blue.code(), 1);
    assert_eq!(Color::Green.code(), 2);
    assert_eq!(Color::Cyan.code(), 3);
    assert_eq!(Color::Red.code(), 4);
    assert_eq!(Color::Magenta.code(), 5);
    assert_eq!(Color::Brown.code(), 6);
    assert_eq!(Color::LightGray.code(), 7);
    assert_eq!(Color::DarkGray.code(), 8);
    assert_eq!(Color::LightBlue.code(), 9);
    assert_eq!(Color::LightGreen.code(), 10);
    assert_eq!(Color::LightCyan.code(), 11);
    assert_eq!(Color::LightRed.code(), 12);
    assert_eq!(Color::Pink.code(), 13);
    assert_eq!(Color::Yellow.code(), 14);
    assert_eq!(Color::White.code(), 15);
}

#[test]
fn color_code_packs_both_nibbles() {
    assert_eq!(ColorCode::new(Color::Cyan, Color::LightCyan).0, 0xB3);
    assert_eq!(ColorCode::new(Color::White, Color::Black).0, 0x0F);
    assert_eq!(ColorCode::new(Color::Black, Color::White).0, 0xF0);
    assert_eq!(ColorCode::new(Color::Yellow, Color::Blue).0, 0x1E);
}

#[test]
fn blank_cell_is_zeroed() {
    let blank = ScreenChar::default();
    assert_eq!(blank, ScreenChar::blank());
    assert_eq!(blank.ascii_character, 0);
    assert_eq!(blank.color_code, ColorCode(0));
}

#[test]
fn fresh_buffer_is_all_blank() {
    let fb = FrameBuffer::new();
    for row in 0..BUFFER_HEIGHT {
        for col in 0..BUFFER_WIDTH {
            assert_eq!(fb.read_cell(row, col), ScreenChar::blank());
        }
    }
}

#[test]
fn write_byte_places_glyph_at_cursor() {
    let mut w = fresh_writer();
    w.write_byte(0x41);
    assert_eq!(w.column_position(), 1);
    let cell = w.char_at(BUFFER_HEIGHT - 1, 0);
    assert_eq!(cell.ascii_character, 0x41);
    assert_eq!(cell.color_code, ColorCode::new(Color::Yellow, Color::Black));
    assert_eq!(w.char_at(BUFFER_HEIGHT - 1, 1), ScreenChar::blank());
}

#[test]
fn newline_resets_column_and_blanks_bottom_row() {
    let mut w = fresh_writer();
    w.write_byte(b'A');
    w.write_byte(b'B');
    assert_eq!(w.column_position(), 2);
    w.write_byte(b'\n');
    assert_eq!(w.column_position(), 0);
    for col in 0..BUFFER_WIDTH {
        assert_eq!(w.char_at(BUFFER_HEIGHT - 1, col), ScreenChar::blank());
    }
    assert_eq!(w.char_at(BUFFER_HEIGHT - 2, 0).ascii_character, b'A');
    assert_eq!(w.char_at(BUFFER_HEIGHT - 2, 1).ascii_character, b'B');
}

#[test]
fn scroll_shifts_every_row_up_by_one() {
    let mut w = fresh_writer();
    w.write_byte(b'A');
    w.write_byte(b'\n');
    w.write_byte(b'B');
    w.write_byte(b'\n');
    w.write_byte(b'C');
    assert_eq!(w.char_at(BUFFER_HEIGHT - 3, 0).ascii_character, b'A');
    assert_eq!(w.char_at(BUFFER_HEIGHT - 2, 0).ascii_character, b'B');
    assert_eq!(w.char_at(BUFFER_HEIGHT - 1, 0).ascii_character, b'C');
    w.write_byte(b'\n');
    assert_eq!(w.char_at(BUFFER_HEIGHT - 4, 0).ascii_character, b'A');
    assert_eq!(w.char_at(BUFFER_HEIGHT - 3, 0).ascii_character, b'B');
    assert_eq!(w.char_at(BUFFER_HEIGHT - 2, 0).ascii_character, b'C');
    for col in 0..BUFFER_WIDTH {
        assert_eq!(w.char_at(BUFFER_HEIGHT - 1, col), ScreenChar::blank());
    }
}

#[test]
fn unsupported_byte_writes_like_the_substitute_glyph() {
    let mut through_string = fresh_writer();
    through_string.write_string("\u{1}");
    let mut direct = fresh_writer();
    direct.write_byte(0xFE);
    assert_eq!(through_string.column_position(), direct.column_position());
    for row in 0..BUFFER_HEIGHT {
        for col in 0..BUFFER_WIDTH {
            assert_eq!(through_string.char_at(row, col), direct.char_at(row, col));
        }
    }
    assert_eq!(through_string.char_at(BUFFER_HEIGHT - 1, 0).ascii_character, 0xFE);
}

#[test]
fn multi_byte_text_becomes_one_substitute_per_byte() {
    let mut w = fresh_writer();
    w.write_string("\u{e9}");
    assert_eq!(w.column_position(), 2);
    assert_eq!(w.char_at(BUFFER_HEIGHT - 1, 0).ascii_character, 0xFE);
    assert_eq!(w.char_at(BUFFER_HEIGHT - 1, 1).ascii_character, 0xFE);
}

#[test]
fn overlong_line_wraps_through_a_scroll() {
    let mut w = fresh_writer();
    let mut bytes: Vec<u8> = Vec::new();
    for i in 0..81u32 {
        bytes.push(0x20 + (i % 95) as u8);
    }
    for i in 0..80 {
        w.write_byte(bytes[i]);
    }
    assert_eq!(w.column_position(), 80);
    for col in 0..BUFFER_WIDTH {
        assert_eq!(w.char_at(BUFFER_HEIGHT - 1, col).ascii_character, bytes[col]);
    }
    w.write_byte(bytes[80]);
    assert_eq!(w.column_position(), 1);
    for col in 0..BUFFER_WIDTH {
        assert_eq!(w.char_at(BUFFER_HEIGHT - 2, col).ascii_character, bytes[col]);
    }
    assert_eq!(w.char_at(BUFFER_HEIGHT - 1, 0).ascii_character, bytes[80]);
    for col in 1..BUFFER_WIDTH {
        assert_eq!(w.char_at(BUFFER_HEIGHT - 1, col), ScreenChar::blank());
    }
}

#[test]
fn two_lines_of_text_end_to_end() {
    let mut w = fresh_writer();
    w.write_string("AB\nCD");
    assert_eq!(w.column_position(), 2);
    assert_eq!(w.char_at(BUFFER_HEIGHT - 1, 0).ascii_character, b'C');
    assert_eq!(w.char_at(BUFFER_HEIGHT - 1, 1).ascii_character, b'D');
    assert_eq!(w.char_at(BUFFER_HEIGHT - 2, 0).ascii_character, b'A');
    assert_eq!(w.char_at(BUFFER_HEIGHT - 2, 1).ascii_character, b'B');
    for col in 2..BUFFER_WIDTH {
        assert_eq!(w.char_at(BUFFER_HEIGHT - 1, col), ScreenChar::blank());
        assert_eq!(w.char_at(BUFFER_HEIGHT - 2, col), ScreenChar::blank());
    }
}
