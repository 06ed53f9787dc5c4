//! The built-in 5×7 bitmap font used to draw text when no TrueType font is
//! loaded: its glyph table, the glyph chosen for a character, and the cells
//! of a glyph that are lit.
//!
//! Each glyph is seven rows, top to bottom; in a row, bit `c` (bit 0 the
//! leftmost) is column `c` of five.

use vstd::prelude::*;

verus! {

/// The glyph drawn for a byte that has none: the table's `?` (0x3F).
pub open spec fn fallback_glyph() -> Seq<u8> {
    seq![0b01111, 0b01000, 0b01100, 0b00110, 0b00010, 0b00000, 0b00110]
}

/// The rows of the glyph for `code`: one for each printable ASCII byte
/// `0x20..=0x7E`, and for any other byte the fallback, which is the glyph of
/// `?`.
pub open spec fn font_rows(code: u8) -> Seq<u8> {
    match code {
        0x20 => seq![0b00000, 0b00000, 0b00000, 0b00000, 0b00000, 0b00000, 0b00000],
        0x21 => seq![0b00100, 0b00100, 0b00100, 0b00100, 0b00100, 0b00000, 0b00100],
        0x22 => seq![0b00000, 0b11011, 0b11011, 0b11011, 0b11011, 0b11011, 0b00000],
        0x23 => seq![0b00100, 0b11110, 0b01110, 0b01110, 0b01111, 0b00100, 0b00000],
        0x24 => seq![0b00110, 0b00111, 0b00011, 0b01110, 0b01000, 0b00111, 0b00000],
        0x25 => seq![0b00111, 0b00101, 0b01110, 0b01110, 0b10100, 0b11100, 0b00000],
        0x26 => seq![0b00110, 0b00010, 0b00010, 0b10101, 0b11001, 0b11111, 0b00000],
        0x27 => seq![0b00110, 0b00110, 0b00110, 0b00110, 0b00110, 0b00110, 0b00110],
        0x28 => seq![0b00100, 0b00010, 0b00010, 0b00010, 0b00010, 0b00010, 0b00100],
        0x29 => seq![0b00010, 0b00110, 0b00100, 0b00100, 0b00100, 0b00110, 0b00010],
        0x2a => seq![0b00000, 0b00100, 0b11111, 0b01110, 0b11111, 0b00100, 0b00000],
        0x2b => seq![0b00000, 0b00100, 0b00100, 0b11111, 0b00100, 0b00100, 0b00000],
        0x2c => seq![0b01110, 0b01110, 0b01110, 0b01110, 0b00111, 0b00111, 0b00011],
        0x2d => seq![0b00000, 0b00000, 0b11111, 0b11111, 0b00000, 0b00000, 0b00000],
        0x2e => seq![0b11111, 0b11111, 0b11111, 0b11111, 0b11111, 0b11111, 0b00000],
        0x2f => seq![0b01000, 0b01100, 0b00100, 0b00110, 0b00010, 0b00011, 0b00001],
        0x30 => seq![0b01110, 0b11011, 0b10001, 0b10101, 0b10001, 0b11011, 0b01110],
        0x31 => seq![0b00111, 0b00110, 0b00110, 0b00110, 0b00110, 0b00110, 0b01111],
        0x32 => seq![0b01111, 0b01000, 0b01000, 0b01100, 0b00110, 0b00011, 0b01111],
        0x33 => seq![0b01111, 0b01000, 0b01100, 0b01110, 0b01000, 0b01000, 0b01111],
        0x34 => seq![0b01100, 0b01100, 0b01010, 0b01011, 0b11111, 0b11110, 0b01000],
        0x35 => seq![0b01111, 0b00001, 0b00111, 0b01100, 0b01000, 0b01000, 0b00111],
        0x36 => seq![0b11110, 0b00011, 0b01111, 0b11011, 0b10001, 0b10011, 0b01110],
        0x37 => seq![0b01111, 0b01000, 0b01100, 0b00100, 0b00110, 0b00010, 0b00010],
        0x38 => seq![0b01110, 0b11011, 0b11011, 0b01110, 0b10001, 0b10001, 0b11111],
        0x39 => seq![0b01110, 0b11001, 0b10001, 0b11011, 0b11110, 0b11000, 0b01110],
        0x3a => seq![0b00110, 0b00110, 0b00000, 0b00000, 0b00000, 0b00110, 0b00110],
        0x3b => seq![0b00110, 0b00100, 0b00000, 0b00000, 0b00110, 0b00110, 0b00010],
        0x3c => seq![0b00000, 0b11000, 0b01110, 0b00011, 0b01110, 0b11000, 0b00000],
        0x3d => seq![0b00000, 0b00000, 0b11111, 0b00000, 0b11111, 0b00000, 0b00000],
        0x3e => seq![0b00000, 0b00011, 0b01110, 0b11000, 0b01110, 0b00011, 0b00000],
        0x3f => seq![0b01111, 0b01000, 0b01100, 0b00110, 0b00010, 0b00000, 0b00110],
        0x40 => seq![0b11110, 0b10001, 0b11101, 0b10111, 0b11101, 0b00011, 0b01110],
        0x41 => seq![0b00100, 0b01110, 0b01010, 0b01010, 0b11111, 0b10001, 0b00000],
        0x42 => seq![0b01111, 0b11001, 0b11001, 0b01111, 0b10001, 0b10001, 0b01111],
        0x43 => seq![0b01110, 0b00011, 0b00001, 0b00001, 0b00001, 0b00011, 0b01110],
        0x44 => seq![0b01111, 0b11001, 0b10001, 0b10001, 0b10001, 0b11001, 0b01111],
        0x45 => seq![0b01111, 0b00001, 0b00001, 0b01111, 0b00001, 0b00001, 0b01111],
        0x46 => seq![0b01111, 0b00001, 0b00001, 0b01111, 0b00001, 0b00001, 0b00001],
        0x47 => seq![0b11110, 0b00011, 0b00001, 0b11001, 0b10001, 0b10011, 0b11110],
        0x48 => seq![0b10001, 0b10001, 0b10001, 0b11111, 0b10001, 0b10001, 0b10001],
        0x49 => seq![0b01111, 0b00110, 0b00110, 0b00110, 0b00110, 0b00110, 0b01111],
        0x4a => seq![0b01110, 0b01000, 0b01000, 0b01000, 0b01000, 0b01000, 0b01111],
        0x4b => seq![0b11001, 0b01101, 0b00111, 0b00111, 0b01101, 0b01001, 0b11001],
        0x4c => seq![0b00001, 0b00001, 0b00001, 0b00001, 0b00001, 0b00001, 0b01111],
        0x4d => seq![0b11011, 0b11011, 0b11111, 0b10101, 0b10001, 0b10001, 0b10001],
        0x4e => seq![0b10011, 0b10011, 0b10111, 0b10101, 0b11101, 0b11001, 0b11001],
        0x4f => seq![0b01110, 0b11011, 0b10001, 0b10001, 0b10001, 0b11011, 0b01110],
        0x50 => seq![0b01111, 0b11001, 0b10001, 0b11111, 0b00011, 0b00001, 0b00001],
        0x51 => seq![0b00111, 0b01001, 0b01001, 0b01001, 0b01001, 0b01111, 0b01100],
        0x52 => seq![0b01111, 0b01001, 0b01001, 0b01111, 0b01101, 0b11001, 0b10001],
        0x53 => seq![0b01111, 0b00001, 0b00001, 0b01110, 0b01000, 0b01000, 0b01111],
        0x54 => seq![0b11111, 0b00100, 0b00100, 0b00100, 0b00100, 0b00100, 0b00000],
        0x55 => seq![0b01001, 0b01001, 0b01001, 0b01001, 0b01001, 0b01001, 0b01111],
        0x56 => seq![0b10001, 0b11011, 0b11011, 0b01010, 0b01110, 0b01110, 0b00100],
        0x57 => seq![0b10001, 0b10001, 0b11111, 0b11111, 0b01011, 0b01010, 0b00000],
        0x58 => seq![0b11011, 0b01010, 0b00100, 0b00110, 0b01010, 0b10001, 0b00000],
        0x59 => seq![0b10001, 0b01010, 0b01110, 0b00100, 0b00100, 0b00100, 0b00000],
        0x5a => seq![0b11111, 0b11000, 0b01100, 0b00100, 0b00010, 0b00011, 0b11111],
        0x5b => seq![0b00110, 0b00010, 0b00010, 0b00010, 0b00010, 0b00010, 0b00110],
        0x5c => seq![0b00001, 0b00011, 0b00010, 0b00110, 0b00100, 0b01100, 0b01000],
        0x5d => seq![0b00110, 0b00100, 0b00100, 0b00100, 0b00100, 0b00100, 0b00110],
        0x5e => seq![0b00000, 0b00000, 0b00100, 0b01010, 0b10011, 0b00000, 0b00000],
        0x5f => seq![0b00000, 0b00000, 0b00000, 0b11111, 0b00000, 0b00000, 0b00000],
        0x60 => seq![0b00000, 0b00111, 0b00110, 0b01100, 0b11000, 0b00000, 0b00000],
        0x61 => seq![0b11111, 0b10000, 0b11110, 0b10011, 0b11001, 0b11111, 0b00000],
        0x62 => seq![0b00001, 0b00001, 0b01111, 0b01001, 0b01001, 0b01001, 0b01111],
        0x63 => seq![0b11110, 0b10011, 0b00001, 0b00001, 0b00001, 0b10011, 0b11110],
        0x64 => seq![0b01000, 0b01000, 0b01111, 0b01001, 0b01001, 0b01001, 0b01111],
        0x65 => seq![0b01110, 0b10011, 0b11111, 0b00011, 0b00011, 0b11110, 0b00000],
        0x66 => seq![0b01100, 0b00110, 0b01111, 0b00010, 0b00010, 0b00010, 0b00010],
        0x67 => seq![0b01111, 0b01001, 0b01001, 0b01001, 0b01111, 0b01000, 0b01111],
        0x68 => seq![0b00001, 0b00001, 0b01111, 0b01001, 0b01001, 0b01001, 0b01001],
        0x69 => seq![0b00110, 0b00000, 0b00110, 0b00110, 0b00110, 0b00110, 0b01111],
        0x6a => seq![0b00100, 0b00100, 0b00100, 0b00100, 0b00100, 0b00100, 0b00110],
        0x6b => seq![0b00001, 0b00001, 0b00101, 0b00011, 0b00011, 0b00101, 0b01001],
        0x6c => seq![0b00011, 0b00010, 0b00010, 0b00010, 0b00010, 0b00010, 0b01100],
        0x6d => seq![0b11111, 0b10101, 0b10101, 0b10101, 0b10101, 0b10101, 0b00000],
        0x6e => seq![0b11111, 0b11011, 0b10001, 0b10001, 0b10001, 0b10001, 0b10001],
        0x6f => seq![0b01110, 0b11011, 0b10001, 0b10001, 0b11011, 0b01110, 0b00000],
        0x70 => seq![0b01111, 0b01001, 0b01001, 0b01001, 0b01111, 0b00001, 0b00001],
        0x71 => seq![0b01111, 0b01001, 0b01001, 0b01001, 0b01111, 0b01000, 0b01000],
        0x72 => seq![0b11111, 0b00011, 0b00011, 0b00001, 0b00001, 0b00001, 0b00001],
        0x73 => seq![0b11110, 0b10011, 0b00011, 0b11110, 0b11000, 0b11001, 0b01111],
        0x74 => seq![0b00010, 0b01111, 0b00110, 0b00010, 0b00010, 0b00010, 0b01100],
        0x75 => seq![0b10001, 0b10001, 0b10001, 0b10001, 0b10001, 0b11011, 0b11111],
        0x76 => seq![0b00000, 0b10001, 0b11011, 0b01010, 0b01110, 0b00100, 0b00000],
        0x77 => seq![0b00000, 0b10001, 0b10001, 0b11111, 0b01110, 0b01010, 0b00000],
        0x78 => seq![0b00000, 0b11011, 0b01110, 0b00100, 0b01110, 0b11011, 0b00000],
        0x79 => seq![0b10001, 0b11011, 0b01010, 0b01110, 0b00100, 0b00100, 0b00011],
        0x7a => seq![0b11111, 0b11000, 0b01100, 0b00100, 0b00110, 0b00011, 0b11111],
        0x7b => seq![0b01100, 0b00100, 0b00100, 0b00110, 0b00100, 0b00100, 0b01100],
        0x7c => seq![0b00100, 0b00100, 0b00100, 0b00100, 0b00100, 0b00100, 0b00100],
        0x7d => seq![0b00110, 0b00100, 0b00100, 0b01100, 0b00100, 0b00100, 0b00110],
        0x7e => seq![0b00000, 0b00000, 0b00000, 0b11111, 0b00000, 0b00000, 0b00000],
        _ => fallback_glyph(),
    }
}

/// The rows of the glyph for the byte `code`; a byte outside printable
/// ASCII gets the glyph of `?`.
pub fn glyph_for(code: u8) -> (rows: [u8; 7])
    ensures
        rows@ == font_rows(code),
        (code < 0x20 || code > 0x7e) ==> rows@ == font_rows(0x3f),
{
    let rows: [u8; 7] = match code {
        0x20 => [0b00000, 0b00000, 0b00000, 0b00000, 0b00000, 0b00000, 0b00000],
        0x21 => [0b00100, 0b00100, 0b00100, 0b00100, 0b00100, 0b00000, 0b00100],
        0x22 => [0b00000, 0b11011, 0b11011, 0b11011, 0b11011, 0b11011, 0b00000],
        0x23 => [0b00100, 0b11110, 0b01110, 0b01110, 0b01111, 0b00100, 0b00000],
        0x24 => [0b00110, 0b00111, 0b00011, 0b01110, 0b01000, 0b00111, 0b00000],
        0x25 => [0b00111, 0b00101, 0b01110, 0b01110, 0b10100, 0b11100, 0b00000],
        0x26 => [0b00110, 0b00010, 0b00010, 0b10101, 0b11001, 0b11111, 0b00000],
        0x27 => [0b00110, 0b00110, 0b00110, 0b00110, 0b00110, 0b00110, 0b00110],
        0x28 => [0b00100, 0b00010, 0b00010, 0b00010, 0b00010, 0b00010, 0b00100],
        0x29 => [0b00010, 0b00110, 0b00100, 0b00100, 0b00100, 0b00110, 0b00010],
        0x2a => [0b00000, 0b00100, 0b11111, 0b01110, 0b11111, 0b00100, 0b00000],
        0x2b => [0b00000, 0b00100, 0b00100, 0b11111, 0b00100, 0b00100, 0b00000],
        0x2c => [0b01110, 0b01110, 0b01110, 0b01110, 0b00111, 0b00111, 0b00011],
        0x2d => [0b00000, 0b00000, 0b11111, 0b11111, 0b00000, 0b00000, 0b00000],
        0x2e => [0b11111, 0b11111, 0b11111, 0b11111, 0b11111, 0b11111, 0b00000],
        0x2f => [0b01000, 0b01100, 0b00100, 0b00110, 0b00010, 0b00011, 0b00001],
        0x30 => [0b01110, 0b11011, 0b10001, 0b10101, 0b10001, 0b11011, 0b01110],
        0x31 => [0b00111, 0b00110, 0b00110, 0b00110, 0b00110, 0b00110, 0b01111],
        0x32 => [0b01111, 0b01000, 0b01000, 0b01100, 0b00110, 0b00011, 0b01111],
        0x33 => [0b01111, 0b01000, 0b01100, 0b01110, 0b01000, 0b01000, 0b01111],
        0x34 => [0b01100, 0b01100, 0b01010, 0b01011, 0b11111, 0b11110, 0b01000],
        0x35 => [0b01111, 0b00001, 0b00111, 0b01100, 0b01000, 0b01000, 0b00111],
        0x36 => [0b11110, 0b00011, 0b01111, 0b11011, 0b10001, 0b10011, 0b01110],
        0x37 => [0b01111, 0b01000, 0b01100, 0b00100, 0b00110, 0b00010, 0b00010],
        0x38 => [0b01110, 0b11011, 0b11011, 0b01110, 0b10001, 0b10001, 0b11111],
        0x39 => [0b01110, 0b11001, 0b10001, 0b11011, 0b11110, 0b11000, 0b01110],
        0x3a => [0b00110, 0b00110, 0b00000, 0b00000, 0b00000, 0b00110, 0b00110],
        0x3b => [0b00110, 0b00100, 0b00000, 0b00000, 0b00110, 0b00110, 0b00010],
        0x3c => [0b00000, 0b11000, 0b01110, 0b00011, 0b01110, 0b11000, 0b00000],
        0x3d => [0b00000, 0b00000, 0b11111, 0b00000, 0b11111, 0b00000, 0b00000],
        0x3e => [0b00000, 0b00011, 0b01110, 0b11000, 0b01110, 0b00011, 0b00000],
        0x3f => [0b01111, 0b01000, 0b01100, 0b00110, 0b00010, 0b00000, 0b00110],
        0x40 => [0b11110, 0b10001, 0b11101, 0b10111, 0b11101, 0b00011, 0b01110],
        0x41 => [0b00100, 0b01110, 0b01010, 0b01010, 0b11111, 0b10001, 0b00000],
        0x42 => [0b01111, 0b11001, 0b11001, 0b01111, 0b10001, 0b10001, 0b01111],
        0x43 => [0b01110, 0b00011, 0b00001, 0b00001, 0b00001, 0b00011, 0b01110],
        0x44 => [0b01111, 0b11001, 0b10001, 0b10001, 0b10001, 0b11001, 0b01111],
        0x45 => [0b01111, 0b00001, 0b00001, 0b01111, 0b00001, 0b00001, 0b01111],
        0x46 => [0b01111, 0b00001, 0b00001, 0b01111, 0b00001, 0b00001, 0b00001],
        0x47 => [0b11110, 0b00011, 0b00001, 0b11001, 0b10001, 0b10011, 0b11110],
        0x48 => [0b10001, 0b10001, 0b10001, 0b11111, 0b10001, 0b10001, 0b10001],
        0x49 => [0b01111, 0b00110, 0b00110, 0b00110, 0b00110, 0b00110, 0b01111],
        0x4a => [0b01110, 0b01000, 0b01000, 0b01000, 0b01000, 0b01000, 0b01111],
        0x4b => [0b11001, 0b01101, 0b00111, 0b00111, 0b01101, 0b01001, 0b11001],
        0x4c => [0b00001, 0b00001, 0b00001, 0b00001, 0b00001, 0b00001, 0b01111],
        0x4d => [0b11011, 0b11011, 0b11111, 0b10101, 0b10001, 0b10001, 0b10001],
        0x4e => [0b10011, 0b10011, 0b10111, 0b10101, 0b11101, 0b11001, 0b11001],
        0x4f => [0b01110, 0b11011, 0b10001, 0b10001, 0b10001, 0b11011, 0b01110],
        0x50 => [0b01111, 0b11001, 0b10001, 0b11111, 0b00011, 0b00001, 0b00001],
        0x51 => [0b00111, 0b01001, 0b01001, 0b01001, 0b01001, 0b01111, 0b01100],
        0x52 => [0b01111, 0b01001, 0b01001, 0b01111, 0b01101, 0b11001, 0b10001],
        0x53 => [0b01111, 0b00001, 0b00001, 0b01110, 0b01000, 0b01000, 0b01111],
        0x54 => [0b11111, 0b00100, 0b00100, 0b00100, 0b00100, 0b00100, 0b00000],
        0x55 => [0b01001, 0b01001, 0b01001, 0b01001, 0b01001, 0b01001, 0b01111],
        0x56 => [0b10001, 0b11011, 0b11011, 0b01010, 0b01110, 0b01110, 0b00100],
        0x57 => [0b10001, 0b10001, 0b11111, 0b11111, 0b01011, 0b01010, 0b00000],
        0x58 => [0b11011, 0b01010, 0b00100, 0b00110, 0b01010, 0b10001, 0b00000],
        0x59 => [0b10001, 0b01010, 0b01110, 0b00100, 0b00100, 0b00100, 0b00000],
        0x5a => [0b11111, 0b11000, 0b01100, 0b00100, 0b00010, 0b00011, 0b11111],
        0x5b => [0b00110, 0b00010, 0b00010, 0b00010, 0b00010, 0b00010, 0b00110],
        0x5c => [0b00001, 0b00011, 0b00010, 0b00110, 0b00100, 0b01100, 0b01000],
        0x5d => [0b00110, 0b00100, 0b00100, 0b00100, 0b00100, 0b00100, 0b00110],
        0x5e => [0b00000, 0b00000, 0b00100, 0b01010, 0b10011, 0b00000, 0b00000],
        0x5f => [0b00000, 0b00000, 0b00000, 0b11111, 0b00000, 0b00000, 0b00000],
        0x60 => [0b00000, 0b00111, 0b00110, 0b01100, 0b11000, 0b00000, 0b00000],
        0x61 => [0b11111, 0b10000, 0b11110, 0b10011, 0b11001, 0b11111, 0b00000],
        0x62 => [0b00001, 0b00001, 0b01111, 0b01001, 0b01001, 0b01001, 0b01111],
        0x63 => [0b11110, 0b10011, 0b00001, 0b00001, 0b00001, 0b10011, 0b11110],
        0x64 => [0b01000, 0b01000, 0b01111, 0b01001, 0b01001, 0b01001, 0b01111],
        0x65 => [0b01110, 0b10011, 0b11111, 0b00011, 0b00011, 0b11110, 0b00000],
        0x66 => [0b01100, 0b00110, 0b01111, 0b00010, 0b00010, 0b00010, 0b00010],
        0x67 => [0b01111, 0b01001, 0b01001, 0b01001, 0b01111, 0b01000, 0b01111],
        0x68 => [0b00001, 0b00001, 0b01111, 0b01001, 0b01001, 0b01001, 0b01001],
        0x69 => [0b00110, 0b00000, 0b00110, 0b00110, 0b00110, 0b00110, 0b01111],
        0x6a => [0b00100, 0b00100, 0b00100, 0b00100, 0b00100, 0b00100, 0b00110],
        0x6b => [0b00001, 0b00001, 0b00101, 0b00011, 0b00011, 0b00101, 0b01001],
        0x6c => [0b00011, 0b00010, 0b00010, 0b00010, 0b00010, 0b00010, 0b01100],
        0x6d => [0b11111, 0b10101, 0b10101, 0b10101, 0b10101, 0b10101, 0b00000],
        0x6e => [0b11111, 0b11011, 0b10001, 0b10001, 0b10001, 0b10001, 0b10001],
        0x6f => [0b01110, 0b11011, 0b10001, 0b10001, 0b11011, 0b01110, 0b00000],
        0x70 => [0b01111, 0b01001, 0b01001, 0b01001, 0b01111, 0b00001, 0b00001],
        0x71 => [0b01111, 0b01001, 0b01001, 0b01001, 0b01111, 0b01000, 0b01000],
        0x72 => [0b11111, 0b00011, 0b00011, 0b00001, 0b00001, 0b00001, 0b00001],
        0x73 => [0b11110, 0b10011, 0b00011, 0b11110, 0b11000, 0b11001, 0b01111],
        0x74 => [0b00010, 0b01111, 0b00110, 0b00010, 0b00010, 0b00010, 0b01100],
        0x75 => [0b10001, 0b10001, 0b10001, 0b10001, 0b10001, 0b11011, 0b11111],
        0x76 => [0b00000, 0b10001, 0b11011, 0b01010, 0b01110, 0b00100, 0b00000],
        0x77 => [0b00000, 0b10001, 0b10001, 0b11111, 0b01110, 0b01010, 0b00000],
        0x78 => [0b00000, 0b11011, 0b01110, 0b00100, 0b01110, 0b11011, 0b00000],
        0x79 => [0b10001, 0b11011, 0b01010, 0b01110, 0b00100, 0b00100, 0b00011],
        0x7a => [0b11111, 0b11000, 0b01100, 0b00100, 0b00110, 0b00011, 0b11111],
        0x7b => [0b01100, 0b00100, 0b00100, 0b00110, 0b00100, 0b00100, 0b01100],
        0x7c => [0b00100, 0b00100, 0b00100, 0b00100, 0b00100, 0b00100, 0b00100],
        0x7d => [0b00110, 0b00100, 0b00100, 0b01100, 0b00100, 0b00100, 0b00110],
        0x7e => [0b00000, 0b00000, 0b00000, 0b11111, 0b00000, 0b00000, 0b00000],
        _ => [0b01111, 0b01000, 0b01100, 0b00110, 0b00010, 0b00000, 0b00110],
    };
    assert(rows@ =~= font_rows(code));
    rows
}

/// The glyph drawn for a character: the one for the first byte of its UTF-8
/// encoding.  Every non-ASCII character starts with a byte of `0xC0` or more
/// and so gets the glyph of `?`.
pub fn glyph_for_char(c: char) -> (rows: [u8; 7])
    ensures
        rows@ == font_rows(vstd::utf8::encode_scalar(c as u32)[0]),
        ((c as u32) < 0x20 || (c as u32) > 0x7e) ==> rows@ == font_rows(0x3f),
        (c as u32) < 0x80 ==> rows@ == font_rows(c as u32 as u8),
{
    let v = c as u32;
    if v < 0x80 {
        let b = v as u8;
        proof {
            assert(vstd::utf8::has_width_1_encoding(v));
            assert((v & 0x7F) as u8 == b) by (bit_vector)
                requires
                    v < 0x80,
                    b == v as u8,
            ;
        }
        glyph_for(b)
    } else {
        proof {
            let s = c as u32;
            let e = vstd::utf8::encode_scalar(s);
            assert(e[0] >= 0xC0) by {
                if vstd::utf8::has_width_2_encoding(s) {
                    assert(0xC0u8 | ((s >> 6) & 0x1F) as u8 >= 0xC0u8) by (bit_vector);
                } else if vstd::utf8::has_width_3_encoding(s) {
                    assert(0xE0u8 | ((s >> 12) & 0x0F) as u8 >= 0xC0u8) by (bit_vector);
                } else {
                    assert(0xF0u8 | ((s >> 18) & 0x7) as u8 >= 0xC0u8) by (bit_vector);
                }
            }
        }
        glyph_for(0xC0)
    }
}

/// Column `col` of row `row` is lit.
pub open spec fn is_lit(rows: Seq<u8>, row: int, col: int) -> bool {
    (rows[row] >> (col as u8)) & 1u8 == 1u8
}

/// The lit cells `(row, col)` among the first `k` cells in row-major order
/// (cell `k` is row `k / 5`, column `k % 5`).
pub open spec fn lit_cells_upto(rows: Seq<u8>, k: int) -> Seq<(u32, u32)>
    decreases k,
{
    if k <= 0 {
        Seq::empty()
    } else if is_lit(rows, (k - 1) / 5, (k - 1) % 5) {
        lit_cells_upto(rows, k - 1).push((((k - 1) / 5) as u32, ((k - 1) % 5) as u32))
    } else {
        lit_cells_upto(rows, k - 1)
    }
}

/// The lit cells of a glyph, row by row, left to right.
pub fn lit_cells(rows: [u8; 7]) -> (cells: Vec<(u32, u32)>)
    ensures
        cells@ == lit_cells_upto(rows@, 35),
{
    let mut cells: Vec<(u32, u32)> = Vec::new();
    let mut row: u32 = 0;
    while row < 7
        invariant
            row <= 7,
            cells@ == lit_cells_upto(rows@, row * 5),
        decreases 7 - row,
    {
        let bits = rows[row as usize];
        let mut col: u32 = 0;
        while col < 5
            invariant
                row < 7,
                col <= 5,
                bits == rows@[row as int],
                cells@ == lit_cells_upto(rows@, row * 5 + col),
            decreases 5 - col,
        {
            let ghost k: int = row * 5 + col;
            assert((k + 1 - 1) / 5 == row && (k + 1 - 1) % 5 == col);
            let c8 = col as u8;
            if (bits >> c8) & 1 == 1 {
                cells.push((row, col));
            }
            col += 1;
        }
        row += 1;
    }
    cells
}

/// A lit cell lies inside the 5×7 grid and is lit in the glyph.
pub proof fn lit_cells_are_lit(rows: Seq<u8>, k: int, i: int)
    requires
        k <= 35,
        0 <= i < lit_cells_upto(rows, k).len(),
    ensures
        lit_cells_upto(rows, k)[i].0 < 7,
        lit_cells_upto(rows, k)[i].1 < 5,
        is_lit(rows, lit_cells_upto(rows, k)[i].0 as int, lit_cells_upto(rows, k)[i].1 as int),
    decreases k,
{
    if k > 0 {
        if is_lit(rows, (k - 1) / 5, (k - 1) % 5) {
            if i < lit_cells_upto(rows, k - 1).len() {
                lit_cells_are_lit(rows, k - 1, i);
            }
        } else {
            lit_cells_are_lit(rows, k - 1, i);
        }
    }
}

proof fn lemma_lit_cell_listed(rows: Seq<u8>, k: int, row: int, col: int)
    requires
        0 <= row < 7,
        0 <= col < 5,
        5 * row + col < k <= 35,
        is_lit(rows, row, col),
    ensures
        lit_cells_upto(rows, k).contains((row as u32, col as u32)),
    decreases k,
{
    let prev = lit_cells_upto(rows, k - 1);
    if 5 * row + col == k - 1 {
        assert((k - 1) / 5 == row && (k - 1) % 5 == col);
        assert(lit_cells_upto(rows, k) == prev.push((row as u32, col as u32)));
        assert(lit_cells_upto(rows, k)[prev.len() as int] == (row as u32, col as u32));
    } else {
        lemma_lit_cell_listed(rows, k - 1, row, col);
        let j = choose|j: int| 0 <= j < prev.len() && prev[j] == (row as u32, col as u32);
        if is_lit(rows, (k - 1) / 5, (k - 1) % 5) {
            assert(lit_cells_upto(rows, k)[j] == prev[j]);
        }
    }
}

/// Every lit cell of a glyph is listed: for each row below 7 and column
/// below 5 whose bit is set, `(row, col)` is among the lit cells, so every
/// row of a glyph, the bottom one included, is drawn.
pub proof fn lit_cells_are_complete(rows: Seq<u8>, row: int, col: int)
    requires
        0 <= row < 7,
        0 <= col < 5,
        is_lit(rows, row, col),
    ensures
        lit_cells_upto(rows, 35).contains((row as u32, col as u32)),
{
    lemma_lit_cell_listed(rows, 35, row, col);
}

/// The lit cells are listed once each, row by row and left to right: their
/// row-major positions strictly increase.
pub proof fn lit_cells_are_in_order(rows: Seq<u8>, k: int, i: int, j: int)
    requires
        k <= 35,
        0 <= i < j < lit_cells_upto(rows, k).len(),
    ensures
        5 * lit_cells_upto(rows, k)[i].0 + lit_cells_upto(rows, k)[i].1 < 5
            * lit_cells_upto(rows, k)[j].0 + lit_cells_upto(rows, k)[j].1,
    decreases k,
{
    lemma_lit_cells_below(rows, k);
    if k > 0 {
        if is_lit(rows, (k - 1) / 5, (k - 1) % 5) {
            if j < lit_cells_upto(rows, k - 1).len() {
                lit_cells_are_in_order(rows, k - 1, i, j);
            } else {
                lemma_lit_cells_below(rows, k - 1);
            }
        } else {
            lit_cells_are_in_order(rows, k - 1, i, j);
        }
    }
}

/// The cells listed among the first `k` lie before position `k`.
proof fn lemma_lit_cells_below(rows: Seq<u8>, k: int)
    requires
        k <= 35,
    ensures
        forall|i: int|
            0 <= i < lit_cells_upto(rows, k).len() ==> 5 * (#[trigger] lit_cells_upto(rows, k)[i]).0
                + lit_cells_upto(rows, k)[i].1 < k,
    decreases k,
{
    if k > 0 {
        lemma_lit_cells_below(rows, k - 1);
        let prev = lit_cells_upto(rows, k - 1);
        assert forall|i: int| 0 <= i < lit_cells_upto(rows, k).len() implies 5 * (
        #[trigger] lit_cells_upto(rows, k)[i]).0 + lit_cells_upto(rows, k)[i].1 < k by {
            if i < prev.len() {
                assert(lit_cells_upto(rows, k)[i] == prev[i]);
            } else {
                assert(5 * ((k - 1) / 5) + (k - 1) % 5 == k - 1);
            }
        }
    }
}

// ---------------------------------------------------------------------------
// The glyph table, packed
// ---------------------------------------------------------------------------

/// The font's glyph for each printable byte, packed into one number: row `r`
/// is the base-32 digit `r` (row 0 the least significant).
pub open spec fn packed_glyph(code: u8) -> u64 {
    match code {
        0x20 => 0x000000000,
        0x21 => 0x100421084,
        0x22 => 0x037bdef60,
        0x23 => 0x008f73bc4,
        0x24 => 0x00e870ce6,
        0x25 => 0x0394738a7,
        0x26 => 0x03f9a8846,
        0x27 => 0x18c6318c6,
        0x28 => 0x104210844,
        0x29 => 0x08c4210c2,
        0x2a => 0x009f77c80,
        0x2b => 0x0084f9080,
        0x2c => 0x0ce7739ce,
        0x2d => 0x0000ffc00,
        0x2e => 0x03fffffff,
        0x2f => 0x046231188,
        0x30 => 0x3b71ac76e,
        0x31 => 0x3cc6318c7,
        0x32 => 0x3c666210f,
        0x33 => 0x3d087310f,
        0x34 => 0x23df5a98c,
        0x35 => 0x1d0861c2f,
        0x36 => 0x3a71dbc7e,
        0x37 => 0x08462310f,
        0x38 => 0x7e3176f6e,
        0x39 => 0x3b1edc72e,
        0x3a => 0x18c0000c6,
        0x3b => 0x08c600086,
        0x3c => 0x030e1bb00,
        0x3d => 0x001f07c00,
        0x3e => 0x006ec3860,
        0x3f => 0x18023310f,
        0x40 => 0x387dbf63e,
        0x41 => 0x023f529c4,
        0x42 => 0x3e317e72f,
        0x43 => 0x38610846e,
        0x44 => 0x3f318c72f,
        0x45 => 0x3c217842f,
        0x46 => 0x04217842f,
        0x47 => 0x7a71c847e,
        0x48 => 0x4631fc631,
        0x49 => 0x3cc6318cf,
        0x4a => 0x3d084210e,
        0x4b => 0x652d39db9,
        0x4c => 0x3c2108421,
        0x4d => 0x4631aff7b,
        0x4e => 0x673dade73,
        0x4f => 0x3b718c76e,
        0x50 => 0x0423fc72f,
        0x51 => 0x31e94a527,
        0x52 => 0x472d7a52f,
        0x53 => 0x3d087042f,
        0x54 => 0x00842109f,
        0x55 => 0x3d294a529,
        0x56 => 0x11ce56f71,
        0x57 => 0x014bffe31,
        0x58 => 0x022a3115b,
        0x59 => 0x008423951,
        0x5a => 0x7c622331f,
        0x5b => 0x184210846,
        0x5c => 0x218430861,
        0x5d => 0x188421086,
        0x5e => 0x001351000,
        0x5f => 0x0000f8000,
        0x60 => 0x0018618e0,
        0x61 => 0x03f99fa1f,
        0x62 => 0x3d294bc21,
        0x63 => 0x7a610867e,
        0x64 => 0x3d294bd08,
        0x65 => 0x03c31fe6e,
        0x66 => 0x084213ccc,
        0x67 => 0x3d0f4a52f,
        0x68 => 0x25294bc21,
        0x69 => 0x3cc631806,
        0x6a => 0x188421084,
        0x6b => 0x24a319421,
        0x6c => 0x304210843,
        0x6d => 0x02b5ad6bf,
        0x6e => 0x46318c77f,
        0x6f => 0x01db8c76e,
        0x70 => 0x042f4a52f,
        0x71 => 0x210f4a52f,
        0x72 => 0x042108c7f,
        0x73 => 0x3f38f0e7e,
        0x74 => 0x3042119e2,
        0x75 => 0x7f718c631,
        0x76 => 0x008e56e20,
        0x77 => 0x014efc620,
        0x78 => 0x036e23b60,
        0x79 => 0x0c8472b71,
        0x7a => 0x7c662331f,
        0x7b => 0x30843108c,
        0x7c => 0x108421084,
        0x7d => 0x188461086,
        0x7e => 0x0000f8000,
        _ => 0,
    }
}

/// The seven rows of a packed glyph: its base-32 digits, least significant
/// first.
pub open spec fn unpacked(p: int) -> Seq<u8> {
    seq![
        (p % 32) as u8,
        ((p / 32) % 32) as u8,
        ((p / 1024) % 32) as u8,
        ((p / 32768) % 32) as u8,
        ((p / 1048576) % 32) as u8,
        ((p / 33554432) % 32) as u8,
        ((p / 1073741824) % 32) as u8,
    ]
}

#[verifier::spinoff_prover]
#[verifier::rlimit(60)]
proof fn lemma_table_0x20(code: u8)
    requires
        0x20 <= code <= 0x27,
    ensures
        font_rows(code) == unpacked(packed_glyph(code) as int),
{
    match code {
        0x20 => assert(font_rows(0x20) =~= unpacked(packed_glyph(0x20) as int)),
        0x21 => assert(font_rows(0x21) =~= unpacked(packed_glyph(0x21) as int)),
        0x22 => assert(font_rows(0x22) =~= unpacked(packed_glyph(0x22) as int)),
        0x23 => assert(font_rows(0x23) =~= unpacked(packed_glyph(0x23) as int)),
        0x24 => assert(font_rows(0x24) =~= unpacked(packed_glyph(0x24) as int)),
        0x25 => assert(font_rows(0x25) =~= unpacked(packed_glyph(0x25) as int)),
        0x26 => assert(font_rows(0x26) =~= unpacked(packed_glyph(0x26) as int)),
        0x27 => assert(font_rows(0x27) =~= unpacked(packed_glyph(0x27) as int)),
        _ => {},
    }
}

#[verifier::spinoff_prover]
#[verifier::rlimit(60)]
proof fn lemma_table_0x28(code: u8)
    requires
        0x28 <= code <= 0x2f,
    ensures
        font_rows(code) == unpacked(packed_glyph(code) as int),
{
    match code {
        0x28 => assert(font_rows(0x28) =~= unpacked(packed_glyph(0x28) as int)),
        0x29 => assert(font_rows(0x29) =~= unpacked(packed_glyph(0x29) as int)),
        0x2a => assert(font_rows(0x2a) =~= unpacked(packed_glyph(0x2a) as int)),
        0x2b => assert(font_rows(0x2b) =~= unpacked(packed_glyph(0x2b) as int)),
        0x2c => assert(font_rows(0x2c) =~= unpacked(packed_glyph(0x2c) as int)),
        0x2d => assert(font_rows(0x2d) =~= unpacked(packed_glyph(0x2d) as int)),
        0x2e => assert(font_rows(0x2e) =~= unpacked(packed_glyph(0x2e) as int)),
        0x2f => assert(font_rows(0x2f) =~= unpacked(packed_glyph(0x2f) as int)),
        _ => {},
    }
}

#[verifier::spinoff_prover]
#[verifier::rlimit(60)]
proof fn lemma_table_0x30(code: u8)
    requires
        0x30 <= code <= 0x37,
    ensures
        font_rows(code) == unpacked(packed_glyph(code) as int),
{
    match code {
        0x30 => assert(font_rows(0x30) =~= unpacked(packed_glyph(0x30) as int)),
        0x31 => assert(font_rows(0x31) =~= unpacked(packed_glyph(0x31) as int)),
        0x32 => assert(font_rows(0x32) =~= unpacked(packed_glyph(0x32) as int)),
        0x33 => assert(font_rows(0x33) =~= unpacked(packed_glyph(0x33) as int)),
        0x34 => assert(font_rows(0x34) =~= unpacked(packed_glyph(0x34) as int)),
        0x35 => assert(font_rows(0x35) =~= unpacked(packed_glyph(0x35) as int)),
        0x36 => assert(font_rows(0x36) =~= unpacked(packed_glyph(0x36) as int)),
        0x37 => assert(font_rows(0x37) =~= unpacked(packed_glyph(0x37) as int)),
        _ => {},
    }
}

#[verifier::spinoff_prover]
#[verifier::rlimit(60)]
proof fn lemma_table_0x38(code: u8)
    requires
        0x38 <= code <= 0x3f,
    ensures
        font_rows(code) == unpacked(packed_glyph(code) as int),
{
    match code {
        0x38 => assert(font_rows(0x38) =~= unpacked(packed_glyph(0x38) as int)),
        0x39 => assert(font_rows(0x39) =~= unpacked(packed_glyph(0x39) as int)),
        0x3a => assert(font_rows(0x3a) =~= unpacked(packed_glyph(0x3a) as int)),
        0x3b => assert(font_rows(0x3b) =~= unpacked(packed_glyph(0x3b) as int)),
        0x3c => assert(font_rows(0x3c) =~= unpacked(packed_glyph(0x3c) as int)),
        0x3d => assert(font_rows(0x3d) =~= unpacked(packed_glyph(0x3d) as int)),
        0x3e => assert(font_rows(0x3e) =~= unpacked(packed_glyph(0x3e) as int)),
        0x3f => assert(font_rows(0x3f) =~= unpacked(packed_glyph(0x3f) as int)),
        _ => {},
    }
}

#[verifier::spinoff_prover]
#[verifier::rlimit(60)]
proof fn lemma_table_0x40(code: u8)
    requires
        0x40 <= code <= 0x47,
    ensures
        font_rows(code) == unpacked(packed_glyph(code) as int),
{
    match code {
        0x40 => assert(font_rows(0x40) =~= unpacked(packed_glyph(0x40) as int)),
        0x41 => assert(font_rows(0x41) =~= unpacked(packed_glyph(0x41) as int)),
        0x42 => assert(font_rows(0x42) =~= unpacked(packed_glyph(0x42) as int)),
        0x43 => assert(font_rows(0x43) =~= unpacked(packed_glyph(0x43) as int)),
        0x44 => assert(font_rows(0x44) =~= unpacked(packed_glyph(0x44) as int)),
        0x45 => assert(font_rows(0x45) =~= unpacked(packed_glyph(0x45) as int)),
        0x46 => assert(font_rows(0x46) =~= unpacked(packed_glyph(0x46) as int)),
        0x47 => assert(font_rows(0x47) =~= unpacked(packed_glyph(0x47) as int)),
        _ => {},
    }
}

#[verifier::spinoff_prover]
#[verifier::rlimit(60)]
proof fn lemma_table_0x48(code: u8)
    requires
        0x48 <= code <= 0x4f,
    ensures
        font_rows(code) == unpacked(packed_glyph(code) as int),
{
    match code {
        0x48 => assert(font_rows(0x48) =~= unpacked(packed_glyph(0x48) as int)),
        0x49 => assert(font_rows(0x49) =~= unpacked(packed_glyph(0x49) as int)),
        0x4a => assert(font_rows(0x4a) =~= unpacked(packed_glyph(0x4a) as int)),
        0x4b => assert(font_rows(0x4b) =~= unpacked(packed_glyph(0x4b) as int)),
        0x4c => assert(font_rows(0x4c) =~= unpacked(packed_glyph(0x4c) as int)),
        0x4d => assert(font_rows(0x4d) =~= unpacked(packed_glyph(0x4d) as int)),
        0x4e => assert(font_rows(0x4e) =~= unpacked(packed_glyph(0x4e) as int)),
        0x4f => assert(font_rows(0x4f) =~= unpacked(packed_glyph(0x4f) as int)),
        _ => {},
    }
}

#[verifier::spinoff_prover]
#[verifier::rlimit(60)]
proof fn lemma_table_0x50(code: u8)
    requires
        0x50 <= code <= 0x57,
    ensures
        font_rows(code) == unpacked(packed_glyph(code) as int),
{
    match code {
        0x50 => assert(font_rows(0x50) =~= unpacked(packed_glyph(0x50) as int)),
        0x51 => assert(font_rows(0x51) =~= unpacked(packed_glyph(0x51) as int)),
        0x52 => assert(font_rows(0x52) =~= unpacked(packed_glyph(0x52) as int)),
        0x53 => assert(font_rows(0x53) =~= unpacked(packed_glyph(0x53) as int)),
        0x54 => assert(font_rows(0x54) =~= unpacked(packed_glyph(0x54) as int)),
        0x55 => assert(font_rows(0x55) =~= unpacked(packed_glyph(0x55) as int)),
        0x56 => assert(font_rows(0x56) =~= unpacked(packed_glyph(0x56) as int)),
        0x57 => assert(font_rows(0x57) =~= unpacked(packed_glyph(0x57) as int)),
        _ => {},
    }
}

#[verifier::spinoff_prover]
#[verifier::rlimit(60)]
proof fn lemma_table_0x58(code: u8)
    requires
        0x58 <= code <= 0x5f,
    ensures
        font_rows(code) == unpacked(packed_glyph(code) as int),
{
    match code {
        0x58 => assert(font_rows(0x58) =~= unpacked(packed_glyph(0x58) as int)),
        0x59 => assert(font_rows(0x59) =~= unpacked(packed_glyph(0x59) as int)),
        0x5a => assert(font_rows(0x5a) =~= unpacked(packed_glyph(0x5a) as int)),
        0x5b => assert(font_rows(0x5b) =~= unpacked(packed_glyph(0x5b) as int)),
        0x5c => assert(font_rows(0x5c) =~= unpacked(packed_glyph(0x5c) as int)),
        0x5d => assert(font_rows(0x5d) =~= unpacked(packed_glyph(0x5d) as int)),
        0x5e => assert(font_rows(0x5e) =~= unpacked(packed_glyph(0x5e) as int)),
        0x5f => assert(font_rows(0x5f) =~= unpacked(packed_glyph(0x5f) as int)),
        _ => {},
    }
}

#[verifier::spinoff_prover]
#[verifier::rlimit(60)]
proof fn lemma_table_0x60(code: u8)
    requires
        0x60 <= code <= 0x67,
    ensures
        font_rows(code) == unpacked(packed_glyph(code) as int),
{
    match code {
        0x60 => assert(font_rows(0x60) =~= unpacked(packed_glyph(0x60) as int)),
        0x61 => assert(font_rows(0x61) =~= unpacked(packed_glyph(0x61) as int)),
        0x62 => assert(font_rows(0x62) =~= unpacked(packed_glyph(0x62) as int)),
        0x63 => assert(font_rows(0x63) =~= unpacked(packed_glyph(0x63) as int)),
        0x64 => assert(font_rows(0x64) =~= unpacked(packed_glyph(0x64) as int)),
        0x65 => assert(font_rows(0x65) =~= unpacked(packed_glyph(0x65) as int)),
        0x66 => assert(font_rows(0x66) =~= unpacked(packed_glyph(0x66) as int)),
        0x67 => assert(font_rows(0x67) =~= unpacked(packed_glyph(0x67) as int)),
        _ => {},
    }
}

#[verifier::spinoff_prover]
#[verifier::rlimit(60)]
proof fn lemma_table_0x68(code: u8)
    requires
        0x68 <= code <= 0x6f,
    ensures
        font_rows(code) == unpacked(packed_glyph(code) as int),
{
    match code {
        0x68 => assert(font_rows(0x68) =~= unpacked(packed_glyph(0x68) as int)),
        0x69 => assert(font_rows(0x69) =~= unpacked(packed_glyph(0x69) as int)),
        0x6a => assert(font_rows(0x6a) =~= unpacked(packed_glyph(0x6a) as int)),
        0x6b => assert(font_rows(0x6b) =~= unpacked(packed_glyph(0x6b) as int)),
        0x6c => assert(font_rows(0x6c) =~= unpacked(packed_glyph(0x6c) as int)),
        0x6d => assert(font_rows(0x6d) =~= unpacked(packed_glyph(0x6d) as int)),
        0x6e => assert(font_rows(0x6e) =~= unpacked(packed_glyph(0x6e) as int)),
        0x6f => assert(font_rows(0x6f) =~= unpacked(packed_glyph(0x6f) as int)),
        _ => {},
    }
}

#[verifier::spinoff_prover]
#[verifier::rlimit(60)]
proof fn lemma_table_0x70(code: u8)
    requires
        0x70 <= code <= 0x77,
    ensures
        font_rows(code) == unpacked(packed_glyph(code) as int),
{
    match code {
        0x70 => assert(font_rows(0x70) =~= unpacked(packed_glyph(0x70) as int)),
        0x71 => assert(font_rows(0x71) =~= unpacked(packed_glyph(0x71) as int)),
        0x72 => assert(font_rows(0x72) =~= unpacked(packed_glyph(0x72) as int)),
        0x73 => assert(font_rows(0x73) =~= unpacked(packed_glyph(0x73) as int)),
        0x74 => assert(font_rows(0x74) =~= unpacked(packed_glyph(0x74) as int)),
        0x75 => assert(font_rows(0x75) =~= unpacked(packed_glyph(0x75) as int)),
        0x76 => assert(font_rows(0x76) =~= unpacked(packed_glyph(0x76) as int)),
        0x77 => assert(font_rows(0x77) =~= unpacked(packed_glyph(0x77) as int)),
        _ => {},
    }
}

#[verifier::spinoff_prover]
#[verifier::rlimit(60)]
proof fn lemma_table_0x78(code: u8)
    requires
        0x78 <= code <= 0x7e,
    ensures
        font_rows(code) == unpacked(packed_glyph(code) as int),
{
    match code {
        0x78 => assert(font_rows(0x78) =~= unpacked(packed_glyph(0x78) as int)),
        0x79 => assert(font_rows(0x79) =~= unpacked(packed_glyph(0x79) as int)),
        0x7a => assert(font_rows(0x7a) =~= unpacked(packed_glyph(0x7a) as int)),
        0x7b => assert(font_rows(0x7b) =~= unpacked(packed_glyph(0x7b) as int)),
        0x7c => assert(font_rows(0x7c) =~= unpacked(packed_glyph(0x7c) as int)),
        0x7d => assert(font_rows(0x7d) =~= unpacked(packed_glyph(0x7d) as int)),
        0x7e => assert(font_rows(0x7e) =~= unpacked(packed_glyph(0x7e) as int)),
        _ => {},
    }
}

/// The glyph of every printable byte is the table's: its seven rows are the
/// digits of the byte's packed glyph.  So `glyph_for` and `glyph_for_char`
/// draw each printable character as the table gives it.
pub proof fn glyphs_follow_the_table(code: u8)
    requires
        0x20 <= code <= 0x7e,
    ensures
        font_rows(code) == unpacked(packed_glyph(code) as int),
{
    if code <= 0x27 {
        lemma_table_0x20(code);
    } else if code <= 0x2f {
        lemma_table_0x28(code);
    } else if code <= 0x37 {
        lemma_table_0x30(code);
    } else if code <= 0x3f {
        lemma_table_0x38(code);
    } else if code <= 0x47 {
        lemma_table_0x40(code);
    } else if code <= 0x4f {
        lemma_table_0x48(code);
    } else if code <= 0x57 {
        lemma_table_0x50(code);
    } else if code <= 0x5f {
        lemma_table_0x58(code);
    } else if code <= 0x67 {
        lemma_table_0x60(code);
    } else if code <= 0x6f {
        lemma_table_0x68(code);
    } else if code <= 0x77 {
        lemma_table_0x70(code);
    } else if code <= 0x7e {
        lemma_table_0x78(code);
    }
}

/// Every glyph, printable or not, fits the five columns: no row has a bit
/// above bit 4.
pub proof fn glyphs_have_five_columns(code: u8, r: int)
    requires
        0 <= r < 7,
    ensures
        font_rows(code)[r] < 32,
{
    if 0x20 <= code <= 0x7e {
        glyphs_follow_the_table(code);
    }
}

} // verus!
