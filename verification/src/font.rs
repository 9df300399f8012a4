//! The built-in hexadecimal font.
//!
//! Sixteen glyphs, one for each hexadecimal digit, each an 8-by-5 sprite stored
//! as five bytes whose high nibble holds the four pixels of one row.

use vstd::prelude::*;

verus! {

/// Bytes per glyph.
pub const GLYPH_SIZE: usize = 5;

/// Bytes in the whole font.
pub const FONT_SIZE: usize = 80;

/// The glyphs for the digits 0 to F, in that order.
pub const FONT: [u8; FONT_SIZE] = [
    0xF0, 0x90, 0x90, 0x90, 0xF0,  // 0
    0x20, 0x60, 0x20, 0x20, 0x70,  // 1
    0xF0, 0x10, 0xF0, 0x80, 0xF0,  // 2
    0xF0, 0x10, 0xF0, 0x10, 0xF0,  // 3
    0x90, 0x90, 0xF0, 0x10, 0x10,  // 4
    0xF0, 0x80, 0xF0, 0x10, 0xF0,  // 5
    0xF0, 0x80, 0xF0, 0x90, 0xF0,  // 6
    0xF0, 0x10, 0x20, 0x40, 0x40,  // 7
    0xF0, 0x90, 0xF0, 0x90, 0xF0,  // 8
    0xF0, 0x90, 0xF0, 0x10, 0xF0,  // 9
    0xF0, 0x90, 0xF0, 0x90, 0x90,  // A
    0xE0, 0x90, 0xE0, 0x90, 0xE0,  // B
    0xF0, 0x80, 0x80, 0x80, 0xF0,  // C
    0xE0, 0x90, 0x90, 0x90, 0xE0,  // D
    0xF0, 0x80, 0xF0, 0x80, 0xF0,  // E
    0xF0, 0x80, 0xF0, 0x80, 0x80,  // F
];

/// The font as a sequence of bytes.
pub open spec fn font() -> Seq<u8> {
    FONT@
}

} // verus!
