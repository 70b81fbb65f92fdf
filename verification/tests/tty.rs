use krabos::vgatty::colors::Color;
use krabos::vgatty::{Character, VGATty, VGA_COLUMNS, VGA_LINES};

#[test]
fn bound_terminal_state() {
    let tty = VGATty::bind();
    assert_eq!(tty.x, 0);
    assert_eq!(tty.y, 0);
    assert_eq!(tty.buffer().len(), VGA_LINES * VGA_COLUMNS);
    assert!(tty
        .buffer()
        .iter()
        .all(|c| *c == Character { character: 0, attribute: 0 }));
}

#[test]
fn colours_and_clear_screen() {
    let mut tty = VGATty::bind();
    tty.set_background_color(Color::Cyan);
    tty.set_foreground_color(Color::LightGray);
    tty.clear_screen();
    // The initial attribute 0x0F keeps its bits: colours are only ever added.
    assert!(tty
        .buffer()
        .iter()
        .all(|c| *c == Character { character: b' ', attribute: 0x3F }));
    assert_eq!(tty.x, 0);
    assert_eq!(tty.y, 0);
}

#[test]
fn write_stores_characters_at_the_cursor() {
    let mut tty = VGATty::bind();
    tty.set_background_color(Color::Cyan);
    tty.set_foreground_color(Color::LightGray);
    tty.clear_screen();
    tty.write(b"Monkey is happy.");
    assert_eq!(tty.x, 16);
    assert_eq!(tty.y, 0);
    let text: Vec<u8> = tty.buffer()[0..16].iter().map(|c| c.character).collect();
    assert_eq!(text, b"Monkey is happy.".to_vec());
    assert!(tty.buffer()[0..16].iter().all(|c| c.attribute == 0x3F));
    assert_eq!(tty.buffer()[16], Character { character: b' ', attribute: 0x3F });
}

#[test]
fn newline_starts_next_line() {
    let mut tty = VGATty::bind();
    tty.write(b"ab\ncd");
    assert_eq!((tty.x, tty.y), (2, 1));
    assert_eq!(tty.buffer()[0], Character { character: b'a', attribute: 0x0F });
    assert_eq!(tty.buffer()[80], Character { character: b'c', attribute: 0x0F });
    assert_eq!(tty.buffer()[81], Character { character: b'd', attribute: 0x0F });
    tty.write(b"\n\n");
    assert_eq!((tty.x, tty.y), (0, 3));
}

#[test]
fn a_full_line_leaves_the_cursor_past_the_last_column() {
    let mut tty = VGATty::bind();
    tty.write(&[b'x'; 80]);
    assert_eq!((tty.x, tty.y), (80, 0));
    assert_eq!(tty.buffer()[79], Character { character: b'x', attribute: 0x0F });
}

#[test]
fn colour_codes() {
    assert_eq!(Color::Black.value(), 0);
    assert_eq!(Color::Cyan.value(), 3);
    assert_eq!(Color::LightGray.value(), 7);
    assert_eq!(Color::White.value(), 15);
}

#[test]
fn write_acceptance() {
    let tty = VGATty::bind();
    assert!(tty.can_write(&[b'x'; 80]));
    assert!(!tty.can_write(&[b'x'; 81]));
    assert!(tty.can_write(b"a\nb\nc"));
    let mut lines = Vec::new();
    for _ in 0..25 {
        lines.extend_from_slice(b"\n");
    }
    assert!(tty.can_write(&lines));
    lines.push(b'z');
    assert!(!tty.can_write(&lines));
}

#[test]
fn writing_in_pieces() {
    let mut pieces = VGATty::bind();
    pieces.write(b"ab\n");
    pieces.write(b"c");
    let mut whole = VGATty::bind();
    whole.write(b"ab\nc");
    assert_eq!((pieces.x, pieces.y), (whole.x, whole.y));
    assert_eq!(pieces.buffer(), whole.buffer());
}
