//! The built-in font: sixteen glyphs of five rows each, for the hexadecimal
//! digits `0` to `F`.

use vstd::prelude::*;

verus! {

/// Bytes taken by one glyph.
pub const GLYPH_SIZE: usize = 5;

/// Bytes taken by the whole font.
pub const FONTSET_SIZE: usize = 80;

/// The glyphs, digit after digit. Only the high four bits of a row are used.
pub const FONTSET: [u8; FONTSET_SIZE] = [
    0xF0, 0x90, 0x90, 0x90, 0xF0, // 0
    0x20, 0x60, 0x20, 0x20, 0x70, // 1
    0xF0, 0x10, 0xF0, 0x80, 0xF0, // 2
    0xF0, 0x10, 0xF0, 0x10, 0xF0, // 3
    0x90, 0x90, 0xF0, 0x10, 0x10, // 4
    0xF0, 0x80, 0xF0, 0x10, 0xF0, // 5
    0xF0, 0x80, 0xF0, 0x90, 0xF0, // 6
    0xF0, 0x10, 0x20, 0x40, 0x40, // 7
    0xF0, 0x90, 0xF0, 0x90, 0xF0, // 8
    0xF0, 0x90, 0xF0, 0x10, 0xF0, // 9
    0xF0, 0x90, 0xF0, 0x90, 0x90, // A
    0xE0, 0x90, 0xE0, 0x90, 0xE0, // B
    0xF0, 0x80, 0x80, 0x80, 0xF0, // C
    0xE0, 0x90, 0x90, 0x90, 0xE0, // D
    0xF0, 0x80, 0xF0, 0x80, 0xF0, // E
    0xF0, 0x80, 0xF0, 0x80, 0x80, // F
];

/// The five rows of the glyph for `digit`.
pub open spec fn glyph(digit: int) -> Seq<u8> {
    FONTSET@.subrange(digit * GLYPH_SIZE, digit * GLYPH_SIZE + GLYPH_SIZE)
}

} // verus!
