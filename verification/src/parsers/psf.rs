//! PC Screen Font (PSF) parsing.
//!
//! A PSF1 file starts with the two magic bytes `0x36 0x04`, then a mode byte and
//! the glyph height in pixels; the glyph bitmaps follow the four-byte header.
//! PSF1 glyphs are always eight pixels wide, one byte per row.
use vstd::prelude::*;

verus! {

/// The two PSF1 magic bytes.
pub const PSF1_MAGIC0: u8 = 0x36;

pub const PSF1_MAGIC1: u8 = 0x04;

/// The four PSF2 magic bytes.
pub const PSF2_MAGIC: [u8; 4] = [0x72, 0xB5, 0x4A, 0x86];

/// Length of the PSF1 header in bytes.
pub const PSF1_HEADER_LEN: usize = 4;

#[derive(PartialEq, Eq, Structural, Debug)]
pub enum PsfVersion {
    Psf1,
    Psf2,
}

#[derive(PartialEq, Eq, Structural, Debug)]
pub struct PsfFontMode {
    pub mode_512: bool,
    pub mode_hastab: bool,
    pub mode_seq: bool,
}

/// The mode flags that a PSF1 mode byte carries: bit 0, bit 1 and bit 2.
pub open spec fn mode_of(raw: u8) -> PsfFontMode {
    PsfFontMode {
        mode_512: raw & 0x01 != 0,
        mode_hastab: raw & 0x02 != 0,
        mode_seq: raw & 0x04 != 0,
    }
}

impl PsfFontMode {
    pub fn from(raw: u8) -> (mode: Self)
        ensures
            mode == mode_of(raw),
    {
        Self { mode_512: (raw & 0x01) != 0, mode_hastab: (raw & 0x02) != 0, mode_seq: (raw & 0x04) != 0 }
    }
}

#[derive(PartialEq, Eq, Structural, Debug)]
pub struct Psf1 {
    pub mode: PsfFontMode,
}

#[derive(PartialEq, Eq, Structural, Debug)]
pub struct Psf2 {}

pub struct PsfFont<'a> {
    pub version: PsfVersion,
    pub psf1: Option<Psf1>,
    pub psf2: Option<Psf2>,
    pub glyphs: &'a [u8],
    pub glyph_size: (u8, u8),
    pub glyph_stride: u8,
}

/// `bytes` starts with a complete PSF1 header.
pub open spec fn is_psf1(bytes: Seq<u8>) -> bool {
    &&& bytes.len() >= 4
    &&& bytes[0] == PSF1_MAGIC0
    &&& bytes[1] == PSF1_MAGIC1
}

/// What a successful parse of `bytes` describes: a PSF1 font whose glyphs are the
/// bytes after the header, eight pixels wide and as high as header byte 3 says.
pub open spec fn describes_psf1(font: PsfFont, bytes: Seq<u8>) -> bool {
    &&& font.version == PsfVersion::Psf1
    &&& font.psf1 == Some(Psf1 { mode: mode_of(bytes[2]) })
    &&& font.psf2.is_none()
    &&& font.glyphs@ == bytes.subrange(4, bytes.len() as int)
    &&& font.glyph_size == (8u8, bytes[3])
    &&& font.glyph_stride == 1
}

impl<'a> PsfFont<'a> {
    fn parse_psf1(font: &'a [u8]) -> (parsed: Option<Self>)
        ensures
            parsed is Some <==> font@.len() >= 4,
            parsed matches Some(f) ==> {
                &&& f.version == PsfVersion::Psf1
                &&& f.psf1 == Some(Psf1 { mode: mode_of(font@[2]) })
                &&& f.psf2.is_none()
                &&& f.glyphs@ == font@.subrange(4, font@.len() as int)
                &&& f.glyph_size == (8u8, font@[3])
                &&& f.glyph_stride == 1
            },
    {
        if font.len() < PSF1_HEADER_LEN {
            return None;
        }
        Some(
            Self {
                version: PsfVersion::Psf1,
                psf1: Some(Psf1 { mode: PsfFontMode::from(font[2]) }),
                psf2: None,
                glyphs: &font[PSF1_HEADER_LEN..font.len()],
                glyph_size: (8, font[3]),
                glyph_stride: 1,
            },
        )
    }

    /// Parses a PSF font. PSF1 fonts are recognised; PSF2 fonts and anything
    /// without a PSF magic number give `None`.
    pub fn parse(font: &'a [u8]) -> (parsed: Option<Self>)
        ensures
            parsed is Some <==> is_psf1(font@),
            parsed matches Some(f) ==> describes_psf1(f, font@),
    {
        if font.len() < 4 {
            return None;
        }
        let version = if font[0] == PSF1_MAGIC0 && font[1] == PSF1_MAGIC1 {
            PsfVersion::Psf1
        } else if font[0] == PSF2_MAGIC[0] && font[1] == PSF2_MAGIC[1] && font[2] == PSF2_MAGIC[2]
            && font[3] == PSF2_MAGIC[3] {
            PsfVersion::Psf2
        } else {
            return None;
        };
        match version {
            PsfVersion::Psf1 => Self::parse_psf1(font),
            PsfVersion::Psf2 => None,
        }
    }
}

} // verus!
