use cautious_carnival::raster::{
    compose_glyphs, glyphs_fit_check, tint_fits_check, tint_pixmap, try_compose_glyphs,
    try_tint_pixmap, GlyphImage,
};
use tiny_skia::Pixmap;

fn px(p: &Pixmap, i: usize) -> (u8, u8, u8, u8) {
    let c = p.pixels()[i];
    (c.red(), c.green(), c.blue(), c.alpha())
}

#[test]
fn no_glyph_gives_one_transparent_pixel() {
    let (p, w, h) = compose_glyphs(&Vec::new());
    assert_eq!((w, h), (1, 1));
    assert_eq!((p.width(), p.height()), (1, 1));
    assert_eq!(px(&p, 0), (0, 0, 0, 0));
    let empty = vec![GlyphImage { x: 5, y: 5, width: 0, height: 3, data: vec![] }];
    let (_, w, h) = compose_glyphs(&empty);
    assert_eq!((w, h), (1, 1));
}

#[test]
fn one_glyph_is_blended_in_white() {
    let g = GlyphImage { x: 3, y: -4, width: 3, height: 1, data: vec![255, 0, 128] };
    let (p, w, h) = compose_glyphs(&vec![g]);
    assert_eq!((w, h), (3, 1));
    assert_eq!(px(&p, 0), (255, 255, 255, 255));
    assert_eq!(px(&p, 1), (0, 0, 0, 0));
    assert_eq!(px(&p, 2), (128, 128, 128, 128));
}

#[test]
fn glyphs_share_a_bounding_box() {
    let a = GlyphImage { x: 0, y: 0, width: 1, height: 1, data: vec![100] };
    let b = GlyphImage { x: 2, y: 1, width: 1, height: 2, data: vec![200, 50] };
    let (p, w, h) = compose_glyphs(&vec![a, b]);
    assert_eq!((w, h), (3, 3));
    assert_eq!(px(&p, 0), (100, 100, 100, 100));
    assert_eq!(px(&p, 1 * 3 + 2), (200, 200, 200, 200));
    assert_eq!(px(&p, 2 * 3 + 2), (50, 50, 50, 50));
    assert_eq!(px(&p, 4), (0, 0, 0, 0));
}

#[test]
fn overlapping_glyphs_blend_source_over() {
    let a = GlyphImage { x: 0, y: 0, width: 1, height: 1, data: vec![100] };
    let b = GlyphImage { x: 0, y: 0, width: 1, height: 1, data: vec![100] };
    let (p, _, _) = compose_glyphs(&vec![a, b]);
    // 100 + 100 * 155 / 255 = 160 (integer division); colour likewise.
    assert_eq!(px(&p, 0), (160, 160, 160, 160));
}

#[test]
fn tint_recolours_coverage() {
    let g = GlyphImage { x: 0, y: 0, width: 2, height: 1, data: vec![128, 0] };
    let (p, _, _) = compose_glyphs(&vec![g]);
    let t = tint_pixmap(&p, 255, 0, 0, 255);
    assert_eq!((t.width(), t.height()), (2, 1));
    assert_eq!(px(&t, 0), (128, 0, 0, 128));
    assert_eq!(px(&t, 1), (0, 0, 0, 0));
    let half = tint_pixmap(&p, 255, 255, 255, 128);
    // alpha 128 * 128 / 255 = 64; channels 255 * 64 / 255 = 64.
    assert_eq!(px(&half, 0), (64, 64, 64, 64));
}

#[test]
fn glyphs_that_do_not_fit_are_refused() {
    let short = vec![GlyphImage { x: 0, y: 0, width: 2, height: 2, data: vec![1, 2, 3] }];
    assert!(!glyphs_fit_check(&short));
    assert!(try_compose_glyphs(&short).is_none());
    let far = vec![GlyphImage { x: i32::MAX, y: 0, width: 1, height: 1, data: vec![9] }];
    assert!(!glyphs_fit_check(&far));
    let wide = vec![
        GlyphImage { x: -2_000_000_000, y: 0, width: 1, height: 1, data: vec![9] },
        GlyphImage { x: 2_000_000_000, y: 0, width: 1, height: 1, data: vec![9] },
    ];
    assert!(!glyphs_fit_check(&wide));
    let ok = vec![GlyphImage { x: 1, y: 1, width: 2, height: 1, data: vec![255, 255] }];
    assert!(glyphs_fit_check(&ok));
    let (p, w, h) = try_compose_glyphs(&ok).unwrap();
    assert_eq!((w, h), (2, 1));
    assert_eq!(px(&p, 1), (255, 255, 255, 255));
    assert!(glyphs_fit_check(&Vec::new()));
}

#[test]
fn tints_that_do_not_fit_are_refused() {
    let g = GlyphImage { x: 0, y: 0, width: 1, height: 1, data: vec![128] };
    let (p, _, _) = compose_glyphs(&vec![g]);
    assert!(tint_fits_check(&p, 255, 10, 20, 255));
    assert!(!tint_fits_check(&p, 300, 0, 0, 255));
    assert!(try_tint_pixmap(&p, 300, 0, 0, 255).is_none());
    assert!(try_tint_pixmap(&p, 0, 0, 0, u32::MAX).is_none());
    let t = try_tint_pixmap(&p, 0, 255, 0, 255).unwrap();
    assert_eq!(px(&t, 0), (0, 128, 0, 128));
}

#[test]
fn tint_reads_only_the_pixels_the_size_covers() {
    // A 1x1 pixmap over an 8-byte buffer: the second group of four bytes is
    // beyond its size.
    let bytes = [128u8, 128, 128, 128, 255, 255, 255, 255];
    let p = tiny_skia::PixmapRef::from_bytes(&bytes, 1, 1).unwrap().to_owned();
    assert_eq!(p.data().len(), 8);
    assert!(tint_fits_check(&p, 255, 0, 0, 255));
    let t = try_tint_pixmap(&p, 255, 0, 0, 255).unwrap();
    assert_eq!((t.width(), t.height()), (1, 1));
    assert_eq!(t.data().len(), 4);
    assert_eq!(px(&t, 0), (128, 0, 0, 128));
    let t2 = tint_pixmap(&p, 255, 0, 0, 255);
    assert_eq!(t2.data(), t.data());
}

#[test]
fn tint_refuses_a_buffer_of_partial_pixels() {
    let bytes = [10u8, 10, 10, 10, 7];
    let p = tiny_skia::PixmapRef::from_bytes(&bytes, 1, 1).unwrap().to_owned();
    assert_eq!(p.data().len(), 5);
    assert!(!tint_fits_check(&p, 0, 0, 0, 255));
    assert!(try_tint_pixmap(&p, 0, 0, 0, 255).is_none());
}
