use krabos::parsers::psf::{PsfFont, PsfFontMode, PsfVersion};

/// A PSF1 font: the header (magic, mode 0x02, 16-pixel glyphs), then glyph
/// data whose first row bytes are 00 00 00 3e.
fn psf1_font() -> Vec<u8> {
    let mut font = vec![0x36, 0x04, 0x02, 16];
    font.extend_from_slice(&[0x00, 0x00, 0x00, 0x3e, 0x63, 0x63, 0x63, 0x7f]);
    font.extend_from_slice(&[0x63, 0x63, 0x63, 0x63, 0x00, 0x00, 0x00, 0x00]);
    font
}

#[test]
fn test_parse_psf1() {
    let font_data = psf1_font();

    let result = PsfFont::parse(&font_data);

    assert!(result.is_some());
    let font = result.unwrap();

    assert_eq!(font.version, PsfVersion::Psf1);
    assert!(font.psf1.is_some());
    assert_eq!(font.glyph_size, (8, 16));
    assert_eq!(font.glyphs[0], 0x00);
    assert_eq!(font.glyphs[1], 0x00);
    assert_eq!(font.glyphs[2], 0x00);
    assert_eq!(font.glyphs[3], 0x3e);
}

#[test]
fn psf1_header_fields() {
    let font_data = psf1_font();
    let font = PsfFont::parse(&font_data).unwrap();
    assert_eq!(font.glyphs.len(), font_data.len() - 4);
    assert_eq!(font.glyph_stride, 1);
    assert!(font.psf2.is_none());
    assert_eq!(
        font.psf1.unwrap().mode,
        PsfFontMode { mode_512: false, mode_hastab: true, mode_seq: false }
    );
}

#[test]
fn psf1_header_alone_has_no_glyphs() {
    let font_data = [0x36, 0x04, 0x00, 8];
    let font = PsfFont::parse(&font_data).unwrap();
    assert_eq!(font.glyphs.len(), 0);
    assert_eq!(font.glyph_size, (8, 8));
}

#[test]
fn psf2_is_not_parsed() {
    let font_data = [0x72, 0xB5, 0x4A, 0x86, 0, 0, 0, 0];
    assert!(PsfFont::parse(&font_data).is_none());
}

#[test]
fn short_or_unknown_input_is_rejected() {
    assert!(PsfFont::parse(&[]).is_none());
    assert!(PsfFont::parse(&[0x36, 0x04, 0x00]).is_none());
    assert!(PsfFont::parse(&[0x36, 0x05, 0x00, 16]).is_none());
    assert!(PsfFont::parse(&[0x00, 0x04, 0x00, 16]).is_none());
}

#[test]
fn font_mode_bits() {
    assert_eq!(
        PsfFontMode::from(0x07),
        PsfFontMode { mode_512: true, mode_hastab: true, mode_seq: true }
    );
    assert_eq!(
        PsfFontMode::from(0x01),
        PsfFontMode { mode_512: true, mode_hastab: false, mode_seq: false }
    );
    assert_eq!(
        PsfFontMode::from(0xF8),
        PsfFontMode { mode_512: false, mode_hastab: false, mode_seq: false }
    );
}
