use rust_kernel::vga_buffer::BUFFER_HEIGHT;
use rust_kernel::vga_buffer::BUFFER_WIDTH;
use rust_kernel::vga_buffer::Color;
use rust_kernel::vga_buffer::ColorCode;
use rust_kernel::vga_buffer::ScreenChar;
use rust_kernel::vga_buffer::Writer;
use rust_kernel::vga_buffer::print;

fn construct_writer() -> Writer {
    Writer::new(ColorCode::new(Color::Blue, Color::Magenta), empty_char())
}

fn empty_char() -> ScreenChar {
    ScreenChar {
        ascii_character: b' ',
        color_code: ColorCode::new(Color::Green, Color::Brown),
    }
}

#[test]
fn write_byte() {
    let mut writer = construct_writer();
    writer.write_byte(b'X');
    writer.write_byte(b'Y');

    for i in 0..BUFFER_HEIGHT {
        for j in 0..BUFFER_WIDTH {
            let screen_char = writer.char_at(i, j);
            if i == BUFFER_HEIGHT - 1 && j == 0 {
                assert_eq!(screen_char.ascii_character, b'X');
                assert_eq!(screen_char.color_code, writer.color_code());
            } else if i == BUFFER_HEIGHT - 1 && j == 1 {
                assert_eq!(screen_char.ascii_character, b'Y');
                assert_eq!(screen_char.color_code, writer.color_code());
            } else {
                assert_eq!(screen_char, empty_char());
            }
        }
    }
}

#[test]
fn write_formatted() {
    let mut writer = construct_writer();
    writer.write_string("a\n");
    writer.write_string(&format!("b{}\n", "c"));

    for i in 0..BUFFER_HEIGHT {
        for j in 0..BUFFER_WIDTH {
            let screen_char = writer.char_at(i, j);
            if i == BUFFER_HEIGHT - 3 && j == 0 {
                assert_eq!(screen_char.ascii_character, b'a');
                assert_eq!(screen_char.color_code, writer.color_code());
            } else if i == BUFFER_HEIGHT - 2 && j == 0 {
                assert_eq!(screen_char.ascii_character, b'b');
                assert_eq!(screen_char.color_code, writer.color_code());
            } else if i == BUFFER_HEIGHT - 2 && j == 1 {
                assert_eq!(screen_char.ascii_character, b'c');
                assert_eq!(screen_char.color_code, writer.color_code());
            } else if i >= BUFFER_HEIGHT - 2 {
                assert_eq!(screen_char.ascii_character, b' ');
                assert_eq!(screen_char.color_code, writer.color_code());
            } else {
                assert_eq!(screen_char, empty_char());
            }
        }
    }
}

// The volatile cells really store what is written: a fresh buffer shows the
// fill, a write shows up at exactly the written cell.
#[test]
fn volatile_cells_hold_writes() {
    let mut writer = construct_writer();
    assert_eq!(writer.char_at(0, 0), empty_char());
    assert_eq!(writer.char_at(BUFFER_HEIGHT - 1, 5), empty_char());
    writer.write_byte(b'Q');
    let written = writer.char_at(BUFFER_HEIGHT - 1, 0);
    assert_eq!(written.ascii_character, b'Q');
    assert_ne!(written, empty_char());
}

// Unprintable bytes come out as the solid-square character.
#[test]
fn write_string_filters_unprintable() {
    let mut writer = construct_writer();
    writer.write_string("A\x01B");
    assert_eq!(writer.char_at(BUFFER_HEIGHT - 1, 0).ascii_character, b'A');
    assert_eq!(writer.char_at(BUFFER_HEIGHT - 1, 1).ascii_character, 0xfe);
    assert_eq!(writer.char_at(BUFFER_HEIGHT - 1, 2).ascii_character, b'B');
}

// A long line wraps onto a fresh bottom row.
#[test]
fn long_line_wraps() {
    let mut writer = construct_writer();
    for _ in 0..BUFFER_WIDTH {
        writer.write_byte(b'x');
    }
    writer.write_byte(b'y');
    // the row of x moved up, y starts the new bottom row
    assert_eq!(writer.char_at(BUFFER_HEIGHT - 2, 0).ascii_character, b'x');
    assert_eq!(writer.char_at(BUFFER_HEIGHT - 2, BUFFER_WIDTH - 1).ascii_character, b'x');
    assert_eq!(writer.char_at(BUFFER_HEIGHT - 1, 0).ascii_character, b'y');
}

#[test]
fn print_writes_string() {
    let mut writer = construct_writer();
    print(&mut writer, "ok");
    assert_eq!(writer.char_at(BUFFER_HEIGHT - 1, 0).ascii_character, b'o');
    assert_eq!(writer.char_at(BUFFER_HEIGHT - 1, 1).ascii_character, b'k');
}

#[test]
fn color_code_packs_nibbles() {
    let code = ColorCode::new(Color::White, Color::Blue);
    assert_eq!(code.0, (1 << 4) | 15);
    let yellow_on_black = ColorCode::new(Color::Yellow, Color::Black);
    assert_eq!(yellow_on_black.0, 14);
}
