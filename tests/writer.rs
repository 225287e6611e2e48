use vga_text::vga_buffer::{
    print_change_color, Color, ColorCode, ScreenChar, Writer, BUFFER_HEIGHT, BUFFER_WIDTH,
};

const LAST: usize = BUFFER_HEIGHT - 1;
const DEFAULT: u8 = 0x0f;

fn blank(color: u8) -> ScreenChar {
    ScreenChar { character: b' ', color_code: ColorCode(color) }
}

fn glyph(c: u8, color: u8) -> ScreenChar {
    ScreenChar { character: c, color_code: ColorCode(color) }
}

fn row_is_blank(w: &Writer, row: usize, color: u8) -> bool {
    (0..BUFFER_WIDTH).all(|c| w.cell(row, c) == blank(color))
}

#[test]
fn new_writer_is_blank_white_on_black() {
    let w = Writer::new();
    assert_eq!(w.column(), 0);
    assert_eq!(w.color_code(), ColorCode(DEFAULT));
    assert!(!w.in_escape());
    for r in 0..BUFFER_HEIGHT {
        assert!(row_is_blank(&w, r, DEFAULT));
    }
}

#[test]
fn write_ab_then_newline() {
    let mut w = Writer::new();
    w.write_string("AB");
    assert_eq!(w.column(), 2);
    assert_eq!(w.cell(LAST, 0), glyph(b'A', DEFAULT));
    assert_eq!(w.cell(LAST, 1), glyph(b'B', DEFAULT));
    w.write_string("\n");
    assert_eq!(w.column(), 0);
    assert_eq!(w.cell(LAST - 1, 0), glyph(b'A', DEFAULT));
    assert_eq!(w.cell(LAST - 1, 1), glyph(b'B', DEFAULT));
    assert!(row_is_blank(&w, LAST, DEFAULT));
}

#[test]
fn short_line_fills_bottom_row() {
    let mut w = Writer::new();
    let s = "Some test string that fits on a single line";
    w.write_string(s);
    assert_eq!(w.column(), s.len());
    for (i, b) in s.bytes().enumerate() {
        assert_eq!(w.cell(LAST, i), glyph(b, DEFAULT));
    }
    assert_eq!(w.cell(LAST, s.len()), blank(DEFAULT));
}

#[test]
fn full_row_does_not_wrap_yet() {
    let mut w = Writer::new();
    let s = "x".repeat(BUFFER_WIDTH);
    w.write_string(&s);
    assert_eq!(w.column(), BUFFER_WIDTH);
    assert!(row_is_blank(&w, LAST - 1, DEFAULT));
    assert_eq!(w.cell(LAST, BUFFER_WIDTH - 1), glyph(b'x', DEFAULT));
}

#[test]
fn long_line_wraps_once() {
    let mut w = Writer::new();
    let s: String = (0..85).map(|i| (b'A' + (i % 26) as u8) as char).collect();
    w.write_string(&s);
    let bytes = s.as_bytes();
    assert_eq!(w.column(), 5);
    for c in 0..BUFFER_WIDTH {
        assert_eq!(w.cell(LAST - 1, c), glyph(bytes[c], DEFAULT));
    }
    for c in 0..5 {
        assert_eq!(w.cell(LAST, c), glyph(bytes[80 + c], DEFAULT));
    }
    for c in 5..BUFFER_WIDTH {
        assert_eq!(w.cell(LAST, c), blank(DEFAULT));
    }
    assert!(row_is_blank(&w, LAST - 2, DEFAULT));
}

#[test]
fn newlines_scroll_by_count() {
    let mut w = Writer::new();
    w.write_string("top");
    w.write_string("\n\n\n");
    assert_eq!(w.column(), 0);
    for c in 0..3 {
        assert_eq!(w.cell(LAST - 3, c), glyph(b"top"[c], DEFAULT));
    }
    assert!(row_is_blank(&w, LAST - 2, DEFAULT));
    assert!(row_is_blank(&w, LAST, DEFAULT));
}

#[test]
fn full_screen_of_newlines_discards_everything() {
    let mut w = Writer::new();
    for r in 0..BUFFER_HEIGHT {
        w.write_string("row");
        if r + 1 < BUFFER_HEIGHT {
            w.write_byte(b'\n');
        }
    }
    assert_eq!(w.cell(0, 0), glyph(b'r', DEFAULT));
    for _ in 0..BUFFER_HEIGHT {
        w.write_byte(b'\n');
    }
    for r in 0..BUFFER_HEIGHT {
        assert!(row_is_blank(&w, r, DEFAULT));
    }
}

#[test]
fn color_change_applies_to_next_glyph() {
    for fg in 0..16u8 {
        for bg in 0..16u8 {
            let mut w = Writer::new();
            print_change_color(&mut w, Color::from(fg), Color::from(bg));
            assert!(!w.in_escape());
            w.write_string("A");
            assert_eq!(w.cell(LAST, 0).color_code.0, fg | (bg << 4));
        }
    }
}

#[test]
fn color_grid_of_all_pairs() {
    let mut w = Writer::new();
    for i in 0..16u8 {
        for j in 0..16u8 {
            print_change_color(&mut w, Color::from(i), Color::from(j));
            w.write_string("A");
            print_change_color(&mut w, Color::White, Color::Black);
            w.write_string(" ");
        }
        w.write_string("\n");
    }
    for i in 0..16usize {
        for j in 0..16usize {
            assert_eq!(
                w.cell(BUFFER_HEIGHT - (17 - i), j * 2).color_code.0,
                (i as u8) | ((j as u8) << 4)
            );
        }
    }
}

#[test]
fn backspace_blanks_last_glyph() {
    let mut w = Writer::new();
    print_change_color(&mut w, Color::Yellow, Color::Blue);
    w.write_string("ab");
    w.write_byte(0x08);
    assert_eq!(w.column(), 1);
    assert_eq!(w.cell(LAST, 0), glyph(b'a', 0x1e));
    assert_eq!(w.cell(LAST, 1), blank(0x1e));
}

#[test]
fn backspace_at_start_is_noop() {
    let mut w = Writer::new();
    w.write_string("\x08");
    assert_eq!(w.column(), 0);
    assert!(row_is_blank(&w, LAST, DEFAULT));
    assert!(!w.in_escape());
}

#[test]
fn escape_marker_in_text_is_placeholder() {
    let mut w = Writer::new();
    w.write_string("\x1b\x11mX");
    assert!(!w.in_escape());
    assert_eq!(w.column(), 4);
    assert_eq!(w.color_code(), ColorCode(DEFAULT));
    assert_eq!(w.cell(LAST, 0), glyph(0xfe, DEFAULT));
    assert_eq!(w.cell(LAST, 1), glyph(0xfe, DEFAULT));
    assert_eq!(w.cell(LAST, 2), glyph(b'm', DEFAULT));
    assert_eq!(w.cell(LAST, 3), glyph(b'X', DEFAULT));
}

#[test]
fn non_ascii_bytes_become_placeholders() {
    let mut w = Writer::new();
    w.write_string("é");
    assert_eq!(w.column(), 2);
    assert_eq!(w.cell(LAST, 0), glyph(0xfe, DEFAULT));
    assert_eq!(w.cell(LAST, 1), glyph(0xfe, DEFAULT));
}

#[test]
fn raw_escape_sequence_sets_colors() {
    let mut w = Writer::new();
    w.write_byte(0x1b);
    assert!(w.in_escape());
    w.write_byte(16 + 4);
    w.write_byte(32 + 2);
    w.write_byte(b'Z');
    assert!(w.in_escape());
    w.write_byte(b'm');
    assert!(!w.in_escape());
    assert_eq!(w.color_code(), ColorCode(0x24));
    assert_eq!(w.column(), 0);
    assert!(row_is_blank(&w, LAST, DEFAULT));
}

#[test]
fn low_byte_in_escape_resets_colors() {
    let mut w = Writer::new();
    w.write_byte(0x1b);
    w.write_byte(16 + 4);
    w.write_byte(32 + 2);
    w.write_byte(7);
    w.write_byte(b'm');
    assert_eq!(w.color_code(), ColorCode(DEFAULT));
}

#[test]
fn newline_clears_with_active_color() {
    let mut w = Writer::new();
    print_change_color(&mut w, Color::Red, Color::Green);
    w.write_byte(b'\n');
    assert!(row_is_blank(&w, LAST, 0x24));
}

#[test]
fn color_from_byte() {
    assert_eq!(Color::from(0), Color::Black);
    assert_eq!(Color::from(5), Color::Magenta);
    assert_eq!(Color::from(15), Color::White);
    assert_eq!(Color::from(16), Color::Black);
    assert_eq!(Color::from(200), Color::Black);
    assert_eq!(Color::Pink.index(), 13);
}

#[test]
fn color_code_packs_nibbles() {
    let mut code = ColorCode::new(Color::LightCyan, Color::Brown);
    assert_eq!(code.0, 0x6b);
    assert_eq!(code.get_foreground(), Color::LightCyan);
    assert_eq!(code.get_background(), Color::Brown);
    code.change_color(Color::White, Color::Red);
    assert_eq!(code.0, 0x4f);
    assert_eq!(code.get_foreground(), Color::White);
    assert_eq!(code.get_background(), Color::Red);
}
