use wio_examples::geometry::{Color565, Point};
use wio_examples::mic_terminal;
use wio_examples::terminal::{DrawOp, GlyphFont, TextAnchor};
use wio_examples::usb_terminal;

fn backdrop() -> DrawOp {
    DrawOp::FillBlack { from: Point { x: 0, y: 0 }, to: Point { x: 320, y: 320 } }
}

const WHITE: Color565 = Color565 { r: 31, g: 63, b: 31 };

// A glyph of the microphone terminal: anchored at its cell's top-left corner.
fn glyph(c: char, x: i32, y: i32) -> DrawOp {
    DrawOp::Glyph { c, at: Point { x, y }, font: GlyphFont::Ascii6x12, color: WHITE, anchor: TextAnchor::TopLeft }
}

// A glyph of the USB terminal: anchored on its baseline.
fn base_glyph(c: char, x: i32, y: i32) -> DrawOp {
    DrawOp::Glyph { c, at: Point { x, y }, font: GlyphFont::Ascii6x12, color: WHITE, anchor: TextAnchor::Baseline }
}

#[test]
fn usb_terminal_starts_inset_over_blank_screen() {
    let mut t = usb_terminal::Terminal::new();
    assert_eq!(t.cursor(), Point { x: 10, y: 15 });
    assert_eq!(t.take_ops(), vec![backdrop()]);
    assert_eq!(t.take_ops(), vec![]);
}

#[test]
fn mic_terminal_starts_at_corner_over_blank_screen() {
    let mut t = mic_terminal::Terminal::new();
    assert_eq!(t.cursor(), Point { x: 0, y: 0 });
    assert_eq!(t.take_ops(), vec![backdrop()]);
}

#[test]
fn characters_advance_by_one_cell() {
    let mut t = mic_terminal::Terminal::new();
    t.take_ops();
    t.write_str("ab");
    assert_eq!(t.cursor(), Point { x: 12, y: 0 });
    assert_eq!(t.take_ops(), vec![glyph('a', 0, 0), glyph('b', 6, 0)]);
}

#[test]
fn newline_moves_to_next_line_without_drawing() {
    let mut t = usb_terminal::Terminal::new();
    t.take_ops();
    t.write_str("x\ny");
    assert_eq!(t.take_ops(), vec![base_glyph('x', 10, 15), base_glyph('y', 0, 27)]);
    assert_eq!(t.cursor(), Point { x: 6, y: 27 });
}

#[test]
fn long_line_wraps_at_right_edge() {
    let mut t = mic_terminal::Terminal::new();
    t.take_ops();
    // 54 characters: columns 0, 6, ..., 318 fill the line, the next one wraps.
    let line: String = std::iter::repeat('a').take(54).collect();
    t.write_str(&line);
    assert_eq!(t.cursor(), Point { x: 324, y: 0 });
    t.take_ops();
    t.write_character('b');
    assert_eq!(t.take_ops(), vec![glyph('b', 0, 12)]);
    assert_eq!(t.cursor(), Point { x: 6, y: 12 });
}

#[test]
fn mic_terminal_clears_with_backdrop_at_bottom() {
    let mut t = mic_terminal::Terminal::new();
    t.take_ops();
    // 19 newlines reach row 228; the 20th would start at 240.
    for _ in 0..19 {
        t.write_character('\n');
    }
    assert_eq!(t.cursor(), Point { x: 0, y: 228 });
    assert_eq!(t.take_ops(), vec![]);
    t.write_character('\n');
    assert_eq!(t.cursor(), Point { x: 0, y: 0 });
    assert_eq!(t.take_ops(), vec![backdrop()]);
    t.write_character('z');
    assert_eq!(t.take_ops(), vec![glyph('z', 0, 0)]);
}

#[test]
fn usb_terminal_wipes_strip_by_strip_at_bottom() {
    let mut t = usb_terminal::Terminal::new();
    t.take_ops();
    // From row 15, 18 newlines reach row 231; the 19th would start at 243.
    for _ in 0..18 {
        t.write_character('\n');
    }
    assert_eq!(t.cursor(), Point { x: 0, y: 231 });
    assert_eq!(t.take_ops(), vec![]);
    t.write_character('\n');
    t.write_character('q');
    let ops = t.take_ops();
    assert_eq!(ops.len(), 54 * 3 + 1);
    for k in 0..54 {
        let x = 6 * k as i32;
        assert_eq!(ops[3 * k], DrawOp::Scroll { rows: 6 });
        assert_eq!(
            ops[3 * k + 1],
            DrawOp::FillBlack { from: Point { x, y: 0 }, to: Point { x: x + 6, y: 240 } }
        );
        assert_eq!(ops[3 * k + 2], DrawOp::Spin { cycles: 1000 });
    }
    assert_eq!(ops[162], base_glyph('q', 0, 0));
    assert_eq!(t.cursor(), Point { x: 6, y: 0 });
}

#[test]
fn segment_writes_only_received_bytes() {
    let mut t = usb_terminal::Terminal::new();
    t.take_ops();
    let mut buf = [0u8; 32];
    buf[0] = b'H';
    buf[1] = b'i';
    buf[2] = b'!';
    t.write((buf, 2));
    assert_eq!(t.take_ops(), vec![base_glyph('H', 10, 15), base_glyph('i', 16, 15)]);
}

#[test]
fn segment_count_beyond_buffer_stops_at_32_bytes() {
    let mut t = mic_terminal_free_usb();
    let buf = [b'.'; 32];
    t.write((buf, 100));
    let ops = t.take_ops();
    assert_eq!(ops.len(), 32);
    assert_eq!(t.cursor(), Point { x: 10 + 32 * 6, y: 15 });
}

fn mic_terminal_free_usb() -> usb_terminal::Terminal {
    let mut t = usb_terminal::Terminal::new();
    t.take_ops();
    t
}

#[test]
fn segment_bytes_become_latin1_characters() {
    let mut t = mic_terminal_free_usb();
    let mut buf = [0u8; 32];
    buf[0] = 0xE9;
    t.write((buf, 1));
    assert_eq!(t.take_ops(), vec![base_glyph('\u{e9}', 10, 15)]);
}

#[test]
fn writing_in_pieces_equals_writing_at_once() {
    let mut a = usb_terminal::Terminal::new();
    let mut b = usb_terminal::Terminal::new();
    a.write_str("Hello! Send text\nto me");
    b.write_str("Hello! Se");
    b.write_str("nd text\nto");
    b.write_str(" me");
    assert_eq!(a.cursor(), b.cursor());
    assert_eq!(a.take_ops(), b.take_ops());
}

#[test]
fn multibyte_characters_are_one_glyph_each() {
    let mut t = mic_terminal::Terminal::new();
    t.take_ops();
    t.write_str("日本");
    assert_eq!(t.take_ops(), vec![glyph('日', 0, 0), glyph('本', 6, 0)]);
}
