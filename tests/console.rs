use vga_text::color::{Color, ColorCode};
use vga_text::vga::{print_something, Buffer, ScreenChar, Writer, BUFFER_HEIGHT, BUFFER_WIDTH};

const ALL_COLORS: [Color; 16] = [
    Color::Black,
    Color::Blue,
    Color::Green,
    Color::Cyan,
    Color::Red,
    Color::Magenta,
    Color::Brown,
    Color::LightGray,
    Color::DarkGray,
    Color::LightBlue,
    Color::LightGreen,
    Color::LightCyan,
    Color::LightRed,
    Color::Pink,
    Color::Yellow,
    Color::White,
];

fn cell(b: u8, code: ColorCode) -> ScreenChar {
    ScreenChar { ascii_character: b, color_code: code }
}

fn empty_buffer() -> Buffer {
    Buffer::filled(cell(0, ColorCode(0)))
}

fn fresh_writer(code: ColorCode) -> Writer {
    Writer::new(code, empty_buffer())
}

fn last_row(w: &Writer, col: usize) -> ScreenChar {
    w.buffer().cell(BUFFER_HEIGHT - 1, col)
}

#[test]
fn encode_yellow_on_black() {
    assert_eq!(ColorCode::new(Color::Yellow, Color::Black).0, 0x0e);
    assert_eq!(ColorCode::new(Color::LightCyan, Color::Black).0, 0x0b);
    assert_eq!(ColorCode::new(Color::White, Color::Blue).0, 0x1f);
    assert_eq!(ColorCode::new(Color::Black, Color::White).0, 0xf0);
}

#[test]
fn decode_round_trip_all_pairs() {
    for fg in ALL_COLORS {
        for bg in ALL_COLORS {
            let code = ColorCode::new(fg, bg);
            assert_eq!(code.0, (bg.value() << 4) | fg.value());
            assert_eq!(code.decode(), (fg, bg));
        }
    }
}

#[test]
fn color_values_in_palette_order() {
    for (i, c) in ALL_COLORS.iter().enumerate() {
        assert_eq!(c.value() as usize, i);
        assert_eq!(Color::from_value(i as u8), *c);
    }
}

#[test]
fn printable_string_fills_bottom_row() {
    let code = ColorCode::new(Color::Green, Color::Black);
    let text = "The quick brown fox jumps over the lazy dog 0123456789 !#$%&()*+,-./:;<=>?@[]^_~";
    assert_eq!(text.len(), 80);
    let mut w = fresh_writer(code);
    w.write_string(text);
    assert_eq!(w.column_position(), 80);
    for (i, b) in text.bytes().enumerate() {
        assert_eq!(last_row(&w, i), cell(b, code));
    }
}

#[test]
fn empty_string_changes_nothing() {
    let code = ColorCode::new(Color::Green, Color::Black);
    let mut w = fresh_writer(code);
    w.write_string("");
    assert_eq!(w.column_position(), 0);
    assert_eq!(last_row(&w, 0), cell(0, ColorCode(0)));
}

#[test]
fn unprintable_bytes_become_sentinel() {
    let code = ColorCode::new(Color::White, Color::Red);
    let mut w = fresh_writer(code);
    w.write_string("a\tb\u{7f}\u{1}");
    assert_eq!(w.column_position(), 5);
    assert_eq!(last_row(&w, 0), cell(b'a', code));
    assert_eq!(last_row(&w, 1), cell(0xfe, code));
    assert_eq!(last_row(&w, 2), cell(b'b', code));
    assert_eq!(last_row(&w, 3), cell(0xfe, code));
    assert_eq!(last_row(&w, 4), cell(0xfe, code));
}

#[test]
fn multibyte_character_gives_one_sentinel_per_byte() {
    let code = ColorCode::new(Color::White, Color::Black);
    let mut w = fresh_writer(code);
    w.write_string("\u{f6}\u{20ac}");
    assert_eq!(w.column_position(), 5);
    for i in 0..5 {
        assert_eq!(last_row(&w, i), cell(0xfe, code));
    }
}

#[test]
fn write_byte_keeps_raw_byte() {
    let code = ColorCode::new(Color::White, Color::Black);
    let mut w = fresh_writer(code);
    w.write_byte(0x01);
    w.write_byte(0xff);
    assert_eq!(last_row(&w, 0), cell(0x01, code));
    assert_eq!(last_row(&w, 1), cell(0xff, code));
    assert_eq!(w.column_position(), 2);
}

#[test]
fn eighty_first_character_advances_line() {
    let code = ColorCode::new(Color::Pink, Color::Black);
    let mut w = fresh_writer(code);
    let row: Vec<u8> = (0..80u8).map(|i| b'A' + (i % 26)).collect();
    for &b in &row {
        w.write_byte(b);
    }
    assert_eq!(w.column_position(), 80);
    w.write_byte(b'z');
    assert_eq!(w.column_position(), 1);
    assert_eq!(last_row(&w, 0), cell(b'z', code));
    for col in 1..BUFFER_WIDTH {
        assert_eq!(last_row(&w, col), cell(b' ', code));
    }
    for (i, &b) in row.iter().enumerate() {
        assert_eq!(w.buffer().cell(BUFFER_HEIGHT - 2, i), cell(b, code));
    }
}

#[test]
fn newline_scrolls_rows_up() {
    let code = ColorCode::new(Color::LightGray, Color::Blue);
    let mut start = empty_buffer();
    for r in 0..BUFFER_HEIGHT {
        start.chars[r][0] = cell(b'a' + r as u8, ColorCode(r as u8));
        start.chars[r][79] = cell(b'A' + r as u8, ColorCode(r as u8));
    }
    let mut w = Writer::new(code, start);
    w.write_string("xy");
    w.write_byte(b'\n');
    assert_eq!(w.column_position(), 0);
    for r in 1..BUFFER_HEIGHT - 1 {
        assert_eq!(w.buffer().cell(r - 1, 0), cell(b'a' + r as u8, ColorCode(r as u8)));
        assert_eq!(w.buffer().cell(r - 1, 79), cell(b'A' + r as u8, ColorCode(r as u8)));
    }
    assert_eq!(w.buffer().cell(BUFFER_HEIGHT - 2, 0), cell(b'x', code));
    assert_eq!(w.buffer().cell(BUFFER_HEIGHT - 2, 1), cell(b'y', code));
    for col in 0..BUFFER_WIDTH {
        assert_eq!(last_row(&w, col), cell(b' ', code));
    }
}

#[test]
fn newline_inside_string_starts_new_row() {
    let code = ColorCode::new(Color::Cyan, Color::Black);
    let mut w = fresh_writer(code);
    w.write_string("ab\ncd");
    assert_eq!(w.column_position(), 2);
    assert_eq!(w.buffer().cell(BUFFER_HEIGHT - 2, 0), cell(b'a', code));
    assert_eq!(w.buffer().cell(BUFFER_HEIGHT - 2, 1), cell(b'b', code));
    assert_eq!(last_row(&w, 0), cell(b'c', code));
    assert_eq!(last_row(&w, 1), cell(b'd', code));
    assert_eq!(last_row(&w, 2), cell(b' ', code));
}

#[test]
fn hello_world_through_writer() {
    let code = ColorCode::new(Color::Yellow, Color::Black);
    let mut w = fresh_writer(code);
    w.write_string("Hello World!");
    assert_eq!(w.column_position(), 12);
    assert_eq!(w.color_code(), code);
    for (i, b) in b"Hello World!".iter().enumerate() {
        assert_eq!(last_row(&w, i), cell(*b, ColorCode(0x0e)));
    }
}

#[test]
fn hello_world_direct_path() {
    let mut buffer = empty_buffer();
    buffer.write_direct(b"Hello World!", ColorCode(0x0b));
    for (i, b) in b"Hello World!".iter().enumerate() {
        assert_eq!(buffer.cell(0, i), cell(*b, ColorCode(0x0b)));
    }
    assert_eq!(buffer.cell(0, 12), cell(0, ColorCode(0)));
    assert_eq!(buffer.cell(BUFFER_HEIGHT - 1, 0), cell(0, ColorCode(0)));
}

#[test]
fn direct_path_runs_on_to_next_row() {
    let mut buffer = empty_buffer();
    let message: Vec<u8> = (0..85u8).map(|i| b'0' + (i % 10)).collect();
    buffer.write_direct(&message, ColorCode(0x1f));
    assert_eq!(buffer.cell(0, 79), cell(b'9', ColorCode(0x1f)));
    assert_eq!(buffer.cell(1, 4), cell(b'4', ColorCode(0x1f)));
    assert_eq!(buffer.cell(1, 5), cell(0, ColorCode(0)));
}

#[test]
fn print_something_writes_greeting() {
    let mut buffer = empty_buffer();
    print_something(&mut buffer);
    let code = ColorCode(0x0e);
    let expected: [u8; 13] = [b'H', b'e', b'l', b'l', b'o', b' ', b'W', 0xfe, 0xfe, b'r', b'l', b'd', b'!'];
    for (i, b) in expected.iter().enumerate() {
        assert_eq!(buffer.cell(BUFFER_HEIGHT - 1, i), cell(*b, code));
    }
    assert_eq!(buffer.cell(BUFFER_HEIGHT - 1, 13), cell(0, ColorCode(0)));
}

#[test]
fn hardware_layout_is_char_then_attribute() {
    let mut buffer = empty_buffer();
    buffer.write_direct(b"Hi", ColorCode(0x0b));
    buffer.chars[1][0] = cell(b'Z', ColorCode(0x4e));
    let bytes = buffer.to_bytes();
    assert_eq!(bytes.len(), 2 * BUFFER_WIDTH * BUFFER_HEIGHT);
    assert_eq!(&bytes[0..4], &[b'H', 0x0b, b'i', 0x0b]);
    assert_eq!(&bytes[4..6], &[0, 0]);
    assert_eq!(&bytes[160..162], &[b'Z', 0x4e]);
}
