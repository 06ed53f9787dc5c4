use cautious_carnival::fonts::{first_font_with_glyph, font_load_order, parse_font, FontCandidate};

fn cand(name: &str, canonical: &str) -> FontCandidate {
    FontCandidate { file_name: name.to_string(), canonical: canonical.to_string() }
}

#[test]
fn configured_fonts_come_first_then_sorted_fallbacks() {
    let configured = vec![cand("Main.ttf", "/f/Main.ttf"), cand("Alt.ttf", "/f/Alt.ttf")];
    let found = vec![
        cand("zeta.ttf", "/f/zeta.ttf"),
        cand("Main.ttf", "/f/Main.ttf"),
        cand("beta.ttf", "/f/beta.ttf"),
        cand("notes.txt", "/f/notes.txt"),
        cand("Alpha.ttf", "/f/Alpha.ttf"),
        cand("Alt.ttf", "/f/Alt.ttf"),
    ];
    let order = font_load_order(&configured, &found);
    assert_eq!(order, vec!["Main.ttf", "Alt.ttf", "Alpha.ttf", "beta.ttf", "zeta.ttf"]);
}

#[test]
fn placeholder_names_are_skipped() {
    let configured = vec![
        cand("REPLACE_WITH_PRIMARY_FONT_FILENAME.ttf", "/f/REPLACE_WITH_PRIMARY_FONT_FILENAME.ttf"),
        cand("REPLACE_WITH_SECONDARY_FONT_FILENAME.ttf", "/f/REPLACE_WITH_SECONDARY_FONT_FILENAME.ttf"),
    ];
    let found = vec![cand("REPLACE_WITH_PRIMARY_FONT_FILENAME.ttf", "/f/REPLACE_WITH_PRIMARY_FONT_FILENAME.ttf")];
    let order = font_load_order(&configured, &found);
    // The placeholder is not loaded as configured, so it is an ordinary fallback.
    assert_eq!(order, vec!["REPLACE_WITH_PRIMARY_FONT_FILENAME.ttf"]);
}

#[test]
fn the_same_file_is_loaded_once() {
    let configured = vec![cand("a.ttf", "/f/a.ttf"), cand("link.ttf", "/f/a.ttf")];
    let found = vec![cand("link.ttf", "/f/a.ttf"), cand("a.ttf", "/f/a.ttf")];
    assert_eq!(font_load_order(&configured, &found), vec!["a.ttf"]);
}

#[test]
fn extension_must_be_ttf_after_a_stem() {
    let found = vec![
        cand(".ttf", "/f/.ttf"),
        cand("x.TTF", "/f/x.TTF"),
        cand("x.ttf.bak", "/f/x.ttf.bak"),
        cand("y.otf", "/f/y.otf"),
        cand("..ttf", "/f/..ttf"),
        cand("b.ttf", "/f/b.ttf"),
    ];
    assert_eq!(font_load_order(&Vec::new(), &found), vec!["..ttf", "b.ttf"]);
}

#[test]
fn fallbacks_sort_like_paths() {
    let names = ["b.ttf", "a.ttf", "ab.ttf", "a0.ttf", "é.ttf", "Z.ttf", "a.ttf"];
    let found: Vec<FontCandidate> = names.iter().map(|n| cand(n, &format!("/f/{n}"))).collect();
    let order = font_load_order(&Vec::new(), &found);
    let mut expected: Vec<std::path::PathBuf> = names.iter().map(|n| std::path::Path::new("/f").join(n)).collect();
    expected.sort();
    let expected: Vec<String> =
        expected.iter().map(|p| p.file_name().unwrap().to_str().unwrap().to_string()).collect();
    assert_eq!(order, expected);
}

#[test]
fn nothing_found_nothing_loaded() {
    assert!(font_load_order(&Vec::new(), &Vec::new()).is_empty());
}

/// A minimal TrueType font whose character map sends each listed byte to a
/// glyph id (no outlines, no metrics).
fn tiny_font(map: &[(u8, u8)], glyphs: u16) -> fontdue::Font {
    fontdue::Font::from_bytes(tiny_font_bytes(map, glyphs), fontdue::FontSettings::default()).unwrap()
}

/// The bytes of the font [`tiny_font`] builds.
fn tiny_font_bytes(map: &[(u8, u8)], glyphs: u16) -> Vec<u8> {
    fn be16(v: u16) -> [u8; 2] {
        v.to_be_bytes()
    }
    fn be32(v: u32) -> [u8; 4] {
        v.to_be_bytes()
    }
    let mut head = Vec::new();
    head.extend_from_slice(&be32(0x0001_0000));
    head.extend_from_slice(&be32(0x0001_0000));
    head.extend_from_slice(&be32(0));
    head.extend_from_slice(&be32(0x5F0F_3CF5));
    head.extend_from_slice(&be16(0));
    head.extend_from_slice(&be16(1000));
    head.extend_from_slice(&[0u8; 16]);
    head.extend_from_slice(&[0u8; 8]);
    head.extend_from_slice(&be16(0));
    head.extend_from_slice(&be16(8));
    head.extend_from_slice(&be16(2));
    head.extend_from_slice(&be16(0));
    head.extend_from_slice(&be16(0));
    let mut hhea = Vec::new();
    hhea.extend_from_slice(&be32(0x0001_0000));
    hhea.extend_from_slice(&be16(800));
    hhea.extend_from_slice(&be16(0xFF38));
    hhea.extend_from_slice(&be16(0));
    hhea.extend_from_slice(&[0u8; 24]);
    hhea.extend_from_slice(&be16(0));
    let mut maxp = Vec::new();
    maxp.extend_from_slice(&be32(0x0000_5000));
    maxp.extend_from_slice(&be16(glyphs));
    let mut cmap = Vec::new();
    cmap.extend_from_slice(&be16(0));
    cmap.extend_from_slice(&be16(1));
    cmap.extend_from_slice(&be16(1));
    cmap.extend_from_slice(&be16(0));
    cmap.extend_from_slice(&be32(12));
    cmap.extend_from_slice(&be16(0));
    cmap.extend_from_slice(&be16(262));
    cmap.extend_from_slice(&be16(0));
    let mut ids = [0u8; 256];
    for &(code, glyph) in map {
        ids[code as usize] = glyph;
    }
    cmap.extend_from_slice(&ids);
    let tables: [(&[u8; 4], &Vec<u8>); 4] =
        [(b"cmap", &cmap), (b"head", &head), (b"hhea", &hhea), (b"maxp", &maxp)];
    let mut out = Vec::new();
    out.extend_from_slice(&be32(0x0001_0000));
    out.extend_from_slice(&be16(4));
    out.extend_from_slice(&be16(64));
    out.extend_from_slice(&be16(2));
    out.extend_from_slice(&be16(0));
    let mut offset = 12 + 16 * tables.len() as u32;
    let mut body = Vec::new();
    for (tag, data) in tables {
        out.extend_from_slice(tag);
        out.extend_from_slice(&be32(0));
        out.extend_from_slice(&be32(offset));
        out.extend_from_slice(&be32(data.len() as u32));
        body.extend_from_slice(data);
        while body.len() % 4 != 0 {
            body.push(0);
        }
        offset = 12 + 16 * tables.len() as u32 + body.len() as u32;
    }
    out.extend_from_slice(&body);
    out
}

#[test]
fn glyph_lookup_takes_the_first_font_that_has_the_glyph() {
    assert_eq!(first_font_with_glyph(&Vec::new(), 'A'), None);
    let first = tiny_font(&[(b'A', 1), (b'B', 2)], 3);
    let second = tiny_font(&[(b'B', 1), (b'C', 2)], 3);
    assert!(first.has_glyph('A') && first.has_glyph('B') && !first.has_glyph('C'));
    let fonts = vec![first, second];
    assert_eq!(first_font_with_glyph(&fonts, 'A'), Some(0));
    assert_eq!(first_font_with_glyph(&fonts, 'B'), Some(0));
    assert_eq!(first_font_with_glyph(&fonts, 'C'), Some(1));
    assert_eq!(first_font_with_glyph(&fonts, 'D'), None);
    assert_eq!(first_font_with_glyph(&fonts, '字'), None);
}

#[test]
fn font_files_parse_into_fonts() {
    let font = parse_font(tiny_font_bytes(&[(b'x', 1)], 2)).unwrap();
    assert!(font.has_glyph('x'));
    assert!(!font.has_glyph('y'));
    assert_eq!(first_font_with_glyph(&vec![font], 'x'), Some(0));
    assert!(parse_font(b"not a font".to_vec()).is_err());
    assert!(parse_font(Vec::new()).is_err());
}
