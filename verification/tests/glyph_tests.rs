use cautious_carnival::glyphs::{glyph_for, glyph_for_char, lit_cells};

const A: [u8; 7] = [0b00100, 0b01110, 0b01010, 0b01010, 0b11111, 0b10001, 0b00000];
const FALLBACK: [u8; 7] = [0b01111, 0b01000, 0b01100, 0b00110, 0b00010, 0b00000, 0b00110];

#[test]
fn glyph_of_letter() {
    assert_eq!(glyph_for(b'A'), A);
    assert_eq!(glyph_for_char('A'), A);
}

#[test]
fn glyph_of_space_is_blank() {
    assert_eq!(glyph_for(b' '), [0; 7]);
}

#[test]
fn unknown_bytes_fall_back() {
    assert_eq!(glyph_for(0x80), glyph_for(b'?'));
    assert_eq!(glyph_for(0x00), glyph_for(b'?'));
    assert_eq!(glyph_for(0xFF), glyph_for(b'?'));
    assert_eq!(glyph_for(0x7F), FALLBACK);
    assert_eq!(glyph_for(0x1F), FALLBACK);
    assert_eq!(glyph_for(0xC3), FALLBACK);
    assert_eq!(glyph_for_char('é'), FALLBACK);
    assert_eq!(glyph_for_char('→'), FALLBACK);
    assert_eq!(glyph_for_char('😀'), FALLBACK);
}

#[test]
fn question_mark_has_its_own_glyph() {
    assert_eq!(glyph_for(b'?'), [0b01111, 0b01000, 0b01100, 0b00110, 0b00010, 0b00000, 0b00110]);
}

#[test]
fn every_printable_byte_has_a_glyph_of_five_columns() {
    for b in 0x20u8..=0x7E {
        for row in glyph_for(b) {
            assert!(row < 32);
        }
    }
}

#[test]
fn lit_cells_of_letter() {
    let cells = lit_cells(A);
    assert_eq!(
        cells,
        vec![
            (0, 2),
            (1, 1), (1, 2), (1, 3),
            (2, 1), (2, 3),
            (3, 1), (3, 3),
            (4, 0), (4, 1), (4, 2), (4, 3), (4, 4),
            (5, 0), (5, 4),
        ]
    );
}

#[test]
fn lit_cells_are_lit_example() {
    for b in 0x20u8..=0x7E {
        let rows = glyph_for(b);
        for (r, c) in lit_cells(rows) {
            assert_eq!((rows[r as usize] >> c) & 1, 1);
        }
    }
    assert!(lit_cells([0; 7]).is_empty());
}
