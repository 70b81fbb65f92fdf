use krabos::drivers::framebuffer::Framebuffer;
use krabos::drivers::logs::sinks::vga::{xterm_code_to_color, Vga};
use krabos::drivers::logs::sinks::Sink;
use krabos::generic::logging::logger::Logger;

const FG: u32 = 0xFF;
const BG: u32 = 0x0;

/// A PSF1 font of 256 glyphs, eight by four pixels. Glyph `n` has row 0 = n,
/// row 1 = 0x80 (leftmost pixel), row 2 = 0x01 (rightmost pixel), row 3 = 0.
fn small_font() -> Vec<u8> {
    let mut font = vec![0x36, 0x04, 0x00, 4];
    for n in 0..=255u8 {
        font.extend_from_slice(&[n, 0x80, 0x01, 0x00]);
    }
    font
}

fn pixel(vga: &Vga, x: usize, y: usize) -> u32 {
    vga.framebuffer.pixels[y * vga.framebuffer.width as usize + x]
}

#[test]
fn new_console_state() {
    let font = small_font();
    let vga = Vga::new(Framebuffer::new(16, 12), &font);
    assert_eq!(vga.cursor_pos, (0, 0));
    assert_eq!(vga.foreground_color, 0xFF);
    assert_eq!(vga.background_color, 0);
    assert_eq!(vga.font.glyph_size, (8, 4));
}

#[test]
fn putchar_draws_glyph_in_cursor_cell() {
    let font = small_font();
    let mut vga = Vga::new(Framebuffer::new(16, 12), &font);
    // 'A' is 0x41 = 0b0100_0001.
    vga.putchar('A');
    assert_eq!(vga.cursor_pos, (1, 0));
    let row0: Vec<u32> = (0..8).map(|x| pixel(&vga, x, 0)).collect();
    assert_eq!(row0, vec![BG, FG, BG, BG, BG, BG, BG, FG]);
    assert_eq!(pixel(&vga, 0, 1), FG);
    assert_eq!(pixel(&vga, 1, 1), BG);
    assert_eq!(pixel(&vga, 7, 2), FG);
    assert_eq!(pixel(&vga, 6, 2), BG);
    for x in 0..8 {
        assert_eq!(pixel(&vga, x, 3), BG);
    }
    // The neighbouring cell is untouched.
    for y in 0..4 {
        for x in 8..16 {
            assert_eq!(pixel(&vga, x, y), 0);
        }
    }
}

#[test]
fn putchar_second_cell_and_wrap() {
    let font = small_font();
    let mut vga = Vga::new(Framebuffer::new(16, 12), &font);
    vga.putchar('A');
    vga.putchar('B');
    // Two cells fill the 16-pixel row: the cursor wraps to the next line.
    assert_eq!(vga.cursor_pos, (0, 1));
    // 'B' is 0x42 = 0b0100_0010, drawn from x = 8.
    let row0: Vec<u32> = (8..16).map(|x| pixel(&vga, x, 0)).collect();
    assert_eq!(row0, vec![BG, FG, BG, BG, BG, BG, FG, BG]);
}

#[test]
fn newline_moves_to_next_line_then_scrolls_on_last() {
    let font = small_font();
    let mut vga = Vga::new(Framebuffer::new(16, 12), &font);
    vga.putchar('\n');
    assert_eq!(vga.cursor_pos, (0, 1));
    vga.putchar('\n');
    assert_eq!(vga.cursor_pos, (0, 2));
    // Line 2 is the last of three: a newline there scrolls and stays on it.
    vga.putchar('\u{ff}');
    assert_eq!(vga.cursor_pos, (1, 2));
    assert_eq!(pixel(&vga, 0, 8), FG);
    vga.putchar('\n');
    assert_eq!(vga.cursor_pos, (0, 2));
    // The glyph moved up one line; the last line was cleared.
    assert_eq!(pixel(&vga, 0, 4), FG);
    for y in 8..12 {
        for x in 0..16 {
            assert_eq!(pixel(&vga, x, y), 0);
        }
    }
}

#[test]
fn wrapping_onto_last_line_scrolls_at_once() {
    let font = small_font();
    let mut vga = Vga::new(Framebuffer::new(16, 12), &font);
    vga.putchar('\n');
    vga.putchar('\u{ff}');
    vga.putchar('\u{ff}');
    // The cursor wrapped onto line 2, the last one, which scrolls immediately.
    assert_eq!(vga.cursor_pos, (0, 2));
    for x in 0..16 {
        assert_eq!(pixel(&vga, x, 0), FG);
        assert_eq!(pixel(&vga, x, 4), 0);
    }
}

#[test]
fn putstr_writes_each_character() {
    let font = small_font();
    let mut vga = Vga::new(Framebuffer::new(16, 12), &font);
    vga.putstr("A\nB");
    assert_eq!(vga.cursor_pos, (1, 1));
    assert_eq!(pixel(&vga, 1, 0), FG);
    assert_eq!(pixel(&vga, 6, 4), FG);
}

#[test]
fn putstr_escape_handling() {
    let font = small_font();
    // An escape followed by `[` draws only the escape character.
    let mut vga = Vga::new(Framebuffer::new(32, 4), &font);
    vga.putstr("\u{1b}[m");
    assert_eq!(vga.cursor_pos, (2, 0));
    // Glyph 0x1b = 0b0001_1011 in the first cell, 'm' = 0x6d = 0b0110_1101 next.
    let first: Vec<u32> = (0..8).map(|x| pixel(&vga, x, 0)).collect();
    assert_eq!(first, vec![BG, BG, BG, FG, FG, BG, FG, FG]);
    let second: Vec<u32> = (8..16).map(|x| pixel(&vga, x, 0)).collect();
    assert_eq!(second, vec![BG, FG, FG, BG, FG, FG, BG, FG]);

    // An escape followed by anything else draws that character, then the escape.
    let mut vga = Vga::new(Framebuffer::new(32, 4), &font);
    vga.putstr("\u{1b}m");
    assert_eq!(vga.cursor_pos, (2, 0));
    let first: Vec<u32> = (0..8).map(|x| pixel(&vga, x, 0)).collect();
    assert_eq!(first, vec![BG, FG, FG, BG, FG, FG, BG, FG]);
    let second: Vec<u32> = (8..16).map(|x| pixel(&vga, x, 0)).collect();
    assert_eq!(second, vec![BG, BG, BG, FG, FG, BG, FG, FG]);

    // A trailing escape is drawn.
    let mut vga = Vga::new(Framebuffer::new(32, 4), &font);
    vga.putstr("\u{1b}");
    assert_eq!(vga.cursor_pos, (1, 0));
}

#[test]
fn scroll_and_clear_line() {
    let font = small_font();
    let mut fb = Framebuffer::new(2, 8);
    for i in 0..16 {
        fb.pixels[i] = i as u32 + 1;
    }
    let mut vga = Vga::new(fb, &font);
    vga.clear_line(1);
    assert_eq!(vga.framebuffer.pixels, vec![1, 2, 3, 4, 5, 6, 7, 8, 0, 0, 0, 0, 0, 0, 0, 0]);
    let mut fb = Framebuffer::new(2, 8);
    for i in 0..16 {
        fb.pixels[i] = i as u32 + 1;
    }
    let mut vga = Vga::new(fb, &font);
    vga.scroll();
    // Everything moves up one 4-pixel line; the cursor's line (0) is cleared.
    assert_eq!(vga.framebuffer.pixels, vec![0, 0, 0, 0, 0, 0, 0, 0, 9, 10, 11, 12, 13, 14, 15, 16]);
}

#[test]
fn clear_fills_from_row_fifty() {
    let mut fb = Framebuffer::new(2, 60);
    Vga::clear(&mut fb, 0xFF0000FF);
    for i in 0..100 {
        assert_eq!(fb.pixels[i], 0);
    }
    for i in 100..120 {
        assert_eq!(fb.pixels[i], 0xFF0000FF);
    }
    let mut small = Framebuffer::new(4, 10);
    Vga::clear(&mut small, 7);
    assert!(small.pixels.iter().all(|p| *p == 0));
}

#[test]
fn xterm_colors() {
    assert_eq!(xterm_code_to_color(0), 0xFF00_0000);
    assert_eq!(xterm_code_to_color(1), 0xFFCD_0000);
    assert_eq!(xterm_code_to_color(4), 0xFF00_00EE);
    assert_eq!(xterm_code_to_color(7), 0xFFCD_CDCD);
    assert_eq!(xterm_code_to_color(8), 0xFF7F_7F7F);
    assert_eq!(xterm_code_to_color(12), 0xFF5C_5CCD);
    assert_eq!(xterm_code_to_color(16), 0xFF00_0000);
    assert_eq!(xterm_code_to_color(100), 0xFF00_0000);
    assert_eq!(xterm_code_to_color(232), 0xFF08_0808);
    assert_eq!(xterm_code_to_color(255), 0xFFEE_EEEE);
}

#[test]
fn logger_writes_to_sink() {
    let font = small_font();
    let mut vga = Vga::new(Framebuffer::new(16, 12), &font);
    {
        let mut logger = Logger::new(&mut vga);
        logger.write_str("A\n");
    }
    assert_eq!(vga.cursor_pos, (0, 1));
    assert_eq!(pixel(&vga, 1, 0), FG);
}

#[test]
fn acceptance_checks() {
    let font = small_font();
    let mut vga = Vga::new(Framebuffer::new(16, 12), &font);
    assert!(vga.can_putchar('A'));
    assert!(vga.can_putchar('\n'));
    // No glyph for characters past the 256 in the font.
    assert!(!vga.can_putchar('\u{100}'));
    assert!(vga.can_putstr("A\nB"));
    assert!(vga.can_putstr("\u{1b}[m"));
    assert!(!vga.can_putstr("A\u{100}"));
    // Five cells fit; the sixth wraps past the last line, off the framebuffer.
    assert!(vga.can_putstr("AAAAA"));
    assert!(!vga.can_putstr("AAAAAA"));
    vga.putstr("AAAAA");
    assert_eq!(vga.cursor_pos, (1, 2));
    assert!(!vga.can_putchar('A'));
    assert!(vga.can_putchar('\n'));
}

#[test]
fn font_taller_than_framebuffer_is_refused() {
    let font = small_font();
    let vga = Vga::new(Framebuffer::new(16, 2), &font);
    assert!(!vga.can_putchar('\n'));
    assert!(!vga.can_putchar('A'));
}

#[test]
fn text_in_pieces_draws_as_text_at_once() {
    let font = small_font();
    let mut pieces = Vga::new(Framebuffer::new(16, 12), &font);
    pieces.putstr("A\u{1b}m");
    pieces.putstr("\nB");
    let mut whole = Vga::new(Framebuffer::new(16, 12), &font);
    whole.putstr("A\u{1b}m\nB");
    assert_eq!(pieces.cursor_pos, whole.cursor_pos);
    assert_eq!(pieces.framebuffer.pixels, whole.framebuffer.pixels);

    // Split inside an escape sequence, the pieces draw something else.
    let mut split = Vga::new(Framebuffer::new(32, 4), &font);
    split.putstr("\u{1b}");
    split.putstr("[");
    let mut joined = Vga::new(Framebuffer::new(32, 4), &font);
    joined.putstr("\u{1b}[");
    assert_eq!(split.cursor_pos, (2, 0));
    assert_eq!(joined.cursor_pos, (1, 0));
}
