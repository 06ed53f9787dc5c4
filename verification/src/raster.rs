//! Integer pixel work of text rasterisation on `tiny_skia` pixmaps: blending
//! glyph coverage masks into a pixmap and tinting a rendered text bitmap.
//!
//! A pixmap is modelled by its width and its pixels in row-major order, each
//! a premultiplied `(r, g, b, a)` quadruple.

use vstd::prelude::*;

use tiny_skia::{Pixmap, PremultipliedColorU8};

verus! {

/// A premultiplied RGBA pixel.
pub type Rgba = (u8, u8, u8, u8);

#[verifier::external_type_specification]
#[verifier::external_body]
pub struct ExPixmap(Pixmap);

/// The pixels of a pixmap: its byte buffer read in groups of four bytes
/// (red, green, blue, alpha), row-major.  A trailing group of fewer than four
/// bytes is no pixel.
pub uninterp spec fn pixmap_pixels(p: Pixmap) -> Seq<Rgba>;

/// The width of a pixmap in pixels.
pub uninterp spec fn pixmap_width(p: Pixmap) -> u32;

/// The height of a pixmap in pixels.
pub uninterp spec fn pixmap_height(p: Pixmap) -> u32;

/// The length in bytes of a pixmap's buffer.  It is at least
/// `width * height * 4`; a pixmap made from a borrowed buffer may hold more,
/// and need not hold a multiple of four.
pub uninterp spec fn pixmap_byte_len(p: Pixmap) -> usize;

/// The buffer holds exactly `width * height` pixels.
pub open spec fn exact_pixmap(p: Pixmap) -> bool {
    &&& pixmap_byte_len(p) == pixmap_width(p) * pixmap_height(p) * 4
    &&& pixmap_pixels(p).len() == pixmap_width(p) * pixmap_height(p)
}

/// The colour channels do not exceed alpha, as premultiplied storage requires.
pub open spec fn premultiplied(p: Rgba) -> bool {
    p.0 <= p.3 && p.1 <= p.3 && p.2 <= p.3
}

/// Whether `Pixmap::new` accepts a size: both sides non-zero, a row of at
/// most `i32::MAX` bytes, and the whole buffer addressable.
pub open spec fn pixmap_size_ok(width: int, height: int) -> bool {
    &&& width > 0
    &&& height > 0
    &&& width * 4 <= i32::MAX
    &&& width * height * 4 <= usize::MAX
}

/// Allocates a transparent pixmap (`Pixmap::new`).
///
/// As the crate's source shows, the call succeeds exactly for non-zero sides
/// whose row length in bytes fits in an `i32` and whose byte count fits in a
/// `usize`; the buffer then holds exactly `width * height * 4` zero bytes.
#[verifier::external_body]
fn pixmap_new(width: u32, height: u32) -> (r: Option<Pixmap>)
    ensures
        r is Some <==> pixmap_size_ok(width as int, height as int),
        r matches Some(p) ==> {
            &&& pixmap_width(p) == width
            &&& pixmap_height(p) == height
            &&& pixmap_byte_len(p) == width * height * 4
            &&& pixmap_pixels(p) == Seq::new(
                (width * height) as nat,
                |i: int| (0u8, 0u8, 0u8, 0u8),
            )
        },
{
    Pixmap::new(width, height)
}

/// The width of a pixmap (`Pixmap::width`).
///
/// Every pixmap has a non-zero width whose row length in bytes fits in an
/// `i32` (the crate checks this in each constructor).
#[verifier::external_body]
fn pixmap_width_of(p: &Pixmap) -> (w: u32)
    ensures
        w == pixmap_width(*p),
        w > 0,
        w * 4 <= i32::MAX,
{
    p.width()
}

/// The height of a pixmap (`Pixmap::height`).
///
/// Every pixmap has a non-zero height, and every constructor checks that the
/// buffer holds at least `width * height * 4` bytes.
#[verifier::external_body]
fn pixmap_height_of(p: &Pixmap) -> (h: u32)
    ensures
        h == pixmap_height(*p),
        h > 0,
        h * pixmap_width(*p) * 4 <= pixmap_byte_len(*p),
{
    p.height()
}

/// The length in bytes of a pixmap's buffer (`Pixmap::data`, its length).
///
/// The pixels are that buffer read in groups of four bytes.
#[verifier::external_body]
fn pixmap_byte_len_of(p: &Pixmap) -> (n: usize)
    ensures
        n == pixmap_byte_len(*p),
        pixmap_pixels(*p).len() == n / 4,
{
    p.data().len()
}

/// The pixel at `idx` (`Pixmap::pixels`, read through the
/// `PremultipliedColorU8` getters).
///
/// `pixels` reinterprets the buffer as 4-byte pixels and panics when its
/// length is not a multiple of four, so that is required.
#[verifier::external_body]
fn pixmap_pixel(p: &Pixmap, idx: usize) -> (px: Rgba)
    requires
        pixmap_byte_len(*p) % 4 == 0,
        idx < pixmap_pixels(*p).len(),
    ensures
        px == pixmap_pixels(*p)[idx as int],
{
    let c = p.pixels()[idx];
    (c.red(), c.green(), c.blue(), c.alpha())
}

/// Stores a pixel (`PremultipliedColorU8::from_rgba`, written through
/// `Pixmap::pixels_mut`).
///
/// `from_rgba` accepts the channels exactly when none of r, g, b exceeds a;
/// then the pixel at `idx` becomes `(r, g, b, a)` and `true` is returned.
/// Otherwise nothing is written and `false` is returned.  `pixels_mut`
/// panics when the buffer's length is not a multiple of four, so that is
/// required.  The size and the buffer's length do not change.
#[verifier::external_body]
fn pixmap_set_pixel(p: &mut Pixmap, idx: usize, r: u8, g: u8, b: u8, a: u8) -> (ok: bool)
    requires
        pixmap_byte_len(*old(p)) % 4 == 0,
        idx < pixmap_pixels(*old(p)).len(),
    ensures
        ok == premultiplied((r, g, b, a)),
        pixmap_width(*final(p)) == pixmap_width(*old(p)),
        pixmap_height(*final(p)) == pixmap_height(*old(p)),
        pixmap_byte_len(*final(p)) == pixmap_byte_len(*old(p)),
        pixmap_pixels(*final(p)) == if ok {
            pixmap_pixels(*old(p)).update(idx as int, (r, g, b, a))
        } else {
            pixmap_pixels(*old(p))
        },
{
    match PremultipliedColorU8::from_rgba(r, g, b, a) {
        Some(c) => {
            p.pixels_mut()[idx] = c;
            true
        },
        None => false,
    }
}

// ---------------------------------------------------------------------------
// Blending a glyph
// ---------------------------------------------------------------------------

/// A glyph coverage value `sa` drawn in white over the premultiplied pixel
/// `d` with source-over: `out = sa * 255 / 255 + d * (255 - sa) / 255` per
/// channel, in integer arithmetic.
pub open spec fn blend_over(d: Rgba, sa: int) -> Rgba {
    let inv = 255 - sa;
    (
        ((255 * sa + d.0 * inv) / 255) as u8,
        ((255 * sa + d.1 * inv) / 255) as u8,
        ((255 * sa + d.2 * inv) / 255) as u8,
        (sa + (d.3 * inv) / 255) as u8,
    )
}

/// The pixel at index `i` of a pixmap `pw` pixels wide lies under the glyph
/// box of size `w` × `h` placed with its top-left corner at `(ox, oy)`.
pub open spec fn under_glyph(pw: int, ox: int, oy: int, w: int, h: int, i: int) -> bool {
    &&& 0 <= i % pw - ox < w
    &&& 0 <= i / pw - oy < h
}

/// The coverage value of the glyph at the pixel with index `i`.
pub open spec fn coverage_at(data: Seq<u8>, pw: int, ox: int, oy: int, w: int, i: int) -> u8 {
    data[(i / pw - oy) * w + (i % pw - ox)]
}

/// The pixels after blending a glyph of size `w` × `h` with coverage `data`
/// (row-major) at `(ox, oy)`: every pixel under a non-zero coverage value is
/// blended, every other pixel (outside the glyph, outside the pixmap, or
/// under zero coverage) is unchanged.
pub open spec fn blended(
    pixels: Seq<Rgba>,
    pw: int,
    ox: int,
    oy: int,
    w: int,
    h: int,
    data: Seq<u8>,
) -> Seq<Rgba> {
    Seq::new(
        pixels.len(),
        |i: int|
            if under_glyph(pw, ox, oy, w, h, i) && coverage_at(data, pw, ox, oy, w, i) != 0 {
                blend_over(pixels[i], coverage_at(data, pw, ox, oy, w, i) as int)
            } else {
                pixels[i]
            },
    )
}

proof fn lemma_blend_over_valid(d: Rgba, sa: int)
    requires
        premultiplied(d),
        0 <= sa <= 255,
    ensures
        premultiplied(blend_over(d, sa)),
        (255 * sa + d.0 * (255 - sa)) / 255 <= 255,
        (255 * sa + d.1 * (255 - sa)) / 255 <= 255,
        (255 * sa + d.2 * (255 - sa)) / 255 <= 255,
        sa + (d.3 * (255 - sa)) / 255 <= 255,
{
    let inv = 255 - sa;
    assert(forall|x: int|
        0 <= x <= 255 ==> #[trigger] ((255 * sa + x * inv) / 255) == sa + (x * inv) / 255)
        by (nonlinear_arith)
        requires
            0 <= sa <= 255,
            inv == 255 - sa,
    ;
    assert(forall|x: int, y: int|
        0 <= x <= y <= 255 ==> #[trigger] ((x * inv) / 255) <= #[trigger] ((y * inv) / 255))
        by (nonlinear_arith)
        requires
            0 <= inv <= 255,
    ;
    assert(forall|x: int| 0 <= x <= 255 ==> #[trigger] ((x * inv) / 255) <= inv) by (nonlinear_arith)
        requires
            0 <= inv <= 255,
    ;
    assert((d.0 as int * inv) / 255 <= (d.3 as int * inv) / 255);
    assert((d.1 as int * inv) / 255 <= (d.3 as int * inv) / 255);
    assert((d.2 as int * inv) / 255 <= (d.3 as int * inv) / 255);
    assert((d.3 as int * inv) / 255 <= inv);
    assert((255 * sa + d.0 * inv) / 255 == sa + (d.0 as int * inv) / 255);
    assert((255 * sa + d.1 * inv) / 255 == sa + (d.1 as int * inv) / 255);
    assert((255 * sa + d.2 * inv) / 255 == sa + (d.2 as int * inv) / 255);
}

proof fn lemma_row_col(pw: int, row: int, col: int)
    requires
        pw > 0,
        row >= 0,
        0 <= col < pw,
    ensures
        (row * pw + col) / pw == row,
        (row * pw + col) % pw == col,
{
    vstd::arithmetic::div_mod::lemma_fundamental_div_mod_converse(row * pw + col, pw, row, col);
}

/// Which pixels under the glyph the blending loop has reached: rows above
/// `y`, and row `y` left of `x`.
spec fn reached(pw: int, ox: int, oy: int, y: int, x: int, i: int) -> bool {
    i / pw - oy < y || (i / pw - oy == y && i % pw - ox < x)
}

/// The pixels part-way through the blending loop.
spec fn partly_blended(
    pixels: Seq<Rgba>,
    pw: int,
    ox: int,
    oy: int,
    w: int,
    h: int,
    data: Seq<u8>,
    y: int,
    x: int,
) -> Seq<Rgba> {
    Seq::new(
        pixels.len(),
        |i: int|
            if under_glyph(pw, ox, oy, w, h, i) && reached(pw, ox, oy, y, x, i) && coverage_at(
                data,
                pw,
                ox,
                oy,
                w,
                i,
            ) != 0 {
                blend_over(pixels[i], coverage_at(data, pw, ox, oy, w, i) as int)
            } else {
                pixels[i]
            },
    )
}

/// Blends a white glyph coverage mask of size `w` × `h` (row-major in
/// `data`) into `pixmap` with its top-left corner at `(ox, oy)`, clipping it
/// to the pixmap.
fn blend_glyph(pixmap: &mut Pixmap, ox: i64, oy: i64, w: u32, h: u32, data: &[u8])
    requires
        exact_pixmap(*old(pixmap)),
        forall|i: int|
            0 <= i < pixmap_pixels(*old(pixmap)).len() ==> premultiplied(
                #[trigger] pixmap_pixels(*old(pixmap))[i],
            ),
        w as int * h as int <= data.len(),
        -0x1_0000_0000 <= ox <= 0x1_0000_0000,
        -0x1_0000_0000 <= oy <= 0x1_0000_0000,
    ensures
        pixmap_width(*final(pixmap)) == pixmap_width(*old(pixmap)),
        pixmap_height(*final(pixmap)) == pixmap_height(*old(pixmap)),
        exact_pixmap(*final(pixmap)),
        pixmap_pixels(*final(pixmap)) == blended(
            pixmap_pixels(*old(pixmap)),
            pixmap_width(*old(pixmap)) as int,
            ox as int,
            oy as int,
            w as int,
            h as int,
            data@,
        ),
        forall|i: int|
            0 <= i < pixmap_pixels(*final(pixmap)).len() ==> premultiplied(
                #[trigger] pixmap_pixels(*final(pixmap))[i],
            ),
{
    let ghost orig = pixmap_pixels(*pixmap);
    let pw = pixmap_width_of(pixmap);
    let ph = pixmap_height_of(pixmap);
    let ghost len = orig.len() as int;
    let ghost pwi = pw as int;
    let ghost blen = pixmap_byte_len(*pixmap);
    let mut y: u32 = 0;
    while y < h
        invariant
            pixmap_width(*pixmap) == pw,
            pixmap_height(*pixmap) == ph,
            pixmap_byte_len(*pixmap) == blen,
            blen == ph * pw * 4,
            pixmap_pixels(*pixmap).len() == len,
            ph * pw == len,
            pw > 0,
            ph > 0,
            y <= h,
            w as int * h as int <= data.len(),
            ph * pw * 4 <= usize::MAX,
            pwi == pw as int,
            len == orig.len(),
            -0x1_0000_0000 <= ox <= 0x1_0000_0000,
            -0x1_0000_0000 <= oy <= 0x1_0000_0000,
            pixmap_pixels(*pixmap) == partly_blended(orig, pwi, ox as int, oy as int, w as int, h as int, data@, y as int, 0),
            forall|i: int| 0 <= i < len ==> premultiplied(#[trigger] orig[i]),
        decreases h - y,
    {
        let dst_y: i64 = oy + y as i64;
        if dst_y >= 0 && dst_y < ph as i64 {
            let mut x: u32 = 0;
            while x < w
                invariant
                    pixmap_width(*pixmap) == pw,
                    pixmap_height(*pixmap) == ph,
                    pixmap_byte_len(*pixmap) == blen,
                    blen == ph * pw * 4,
                    pixmap_pixels(*pixmap).len() == len,
                    ph * pw == len,
                    pw > 0,
                    y < h,
                    x <= w,
                    dst_y == oy + y,
                    0 <= dst_y < ph,
                    w as int * h as int <= data.len(),
                    ph * pw * 4 <= usize::MAX,
                    pwi == pw as int,
                    len == orig.len(),
                    -0x1_0000_0000 <= ox <= 0x1_0000_0000,
                    -0x1_0000_0000 <= oy <= 0x1_0000_0000,
                    pixmap_pixels(*pixmap) == partly_blended(orig, pwi, ox as int, oy as int, w as int, h as int, data@, y as int, x as int),
                    forall|i: int| 0 <= i < len ==> premultiplied(#[trigger] orig[i]),
                decreases w - x,
            {
                let dst_x: i64 = ox + x as i64;
                let ghost before = pixmap_pixels(*pixmap);
                if dst_x >= 0 && dst_x < pw as i64 {
                    assert(y as int * w as int + x < w as int * h as int) by (nonlinear_arith)
                        requires
                            y < h,
                            x < w,
                    ;
                    assert(y as int * w as int <= y as int * w as int + x);
                    let k = (y as u64 * w as u64 + x as u64) as usize;
                    let alpha = data[k];
                    assert(dst_y * pwi + dst_x < ph as int * pwi) by (nonlinear_arith)
                        requires
                            0 <= dst_y < ph,
                            0 <= dst_x < pwi,
                    ;
                    assert(dst_y * pwi <= dst_y * pwi + dst_x);
                    let idx = (dst_y as u64 * pw as u64 + dst_x as u64) as usize;
                    proof {
                        lemma_row_col(pwi, dst_y as int, dst_x as int);
                        assert(idx as int == dst_y * pwi + dst_x);
                        assert(dst_y * pwi + dst_x < ph as int * pwi) by (nonlinear_arith)
                            requires
                                0 <= dst_y < ph,
                                0 <= dst_x < pwi,
                        ;
                        assert(under_glyph(pwi, ox as int, oy as int, w as int, h as int, idx as int));
                        assert(coverage_at(data@, pwi, ox as int, oy as int, w as int, idx as int) == alpha);
                    }
                    if alpha != 0 {
                        let d = pixmap_pixel(pixmap, idx);
                        assert(d == orig[idx as int]);
                        let sa = alpha as u32;
                        let inv_sa = 255 - sa;
                        proof {
                            lemma_blend_over_valid(d, sa as int);
                        }
                        let out_a = sa + (d.3 as u32 * inv_sa) / 255;
                        let out_r = (255 * sa + d.0 as u32 * inv_sa) / 255;
                        let out_g = (255 * sa + d.1 as u32 * inv_sa) / 255;
                        let out_b = (255 * sa + d.2 as u32 * inv_sa) / 255;
                        let ok = pixmap_set_pixel(pixmap, idx, out_r as u8, out_g as u8, out_b as u8, out_a as u8);
                        assert(ok);
                    }
                    proof {
                        assert forall|i: int| 0 <= i < len implies #[trigger] pixmap_pixels(*pixmap)[i]
                            == partly_blended(orig, pwi, ox as int, oy as int, w as int, h as int, data@, y as int, x + 1)[i] by {
                            if i != idx as int {
                                if under_glyph(pwi, ox as int, oy as int, w as int, h as int, i) {
                                    assert(reached(pwi, ox as int, oy as int, y as int, x + 1, i)
                                        == reached(pwi, ox as int, oy as int, y as int, x as int, i)) by {
                                        if i / pwi - oy == y && i % pwi - ox == x {
                                            vstd::arithmetic::div_mod::lemma_fundamental_div_mod(i, pwi);
                                            let q = i / pwi;
                                            assert(pwi * q == q * pwi) by (nonlinear_arith);
                                            assert(i == dst_y * pwi + dst_x);
                                        }
                                    }
                                }
                            }
                        }
                        assert(pixmap_pixels(*pixmap) =~= partly_blended(orig, pwi, ox as int, oy as int, w as int, h as int, data@, y as int, x + 1));
                    }
                } else {
                    proof {
                        assert forall|i: int| 0 <= i < len implies #[trigger] partly_blended(orig, pwi, ox as int, oy as int, w as int, h as int, data@, y as int, x as int)[i]
                            == partly_blended(orig, pwi, ox as int, oy as int, w as int, h as int, data@, y as int, x + 1)[i] by {
                            vstd::arithmetic::div_mod::lemma_mod_pos_bound(i, pwi);
                        }
                        assert(partly_blended(orig, pwi, ox as int, oy as int, w as int, h as int, data@, y as int, x as int)
                            =~= partly_blended(orig, pwi, ox as int, oy as int, w as int, h as int, data@, y as int, x + 1));
                    }
                }
                x += 1;
            }
            proof {
                assert forall|i: int| 0 <= i < len implies #[trigger] partly_blended(orig, pwi, ox as int, oy as int, w as int, h as int, data@, y as int, w as int)[i]
                    == partly_blended(orig, pwi, ox as int, oy as int, w as int, h as int, data@, y + 1, 0)[i] by {
                }
                assert(partly_blended(orig, pwi, ox as int, oy as int, w as int, h as int, data@, y as int, w as int)
                    =~= partly_blended(orig, pwi, ox as int, oy as int, w as int, h as int, data@, y + 1, 0));
            }
        } else {
            proof {
                assert forall|i: int| 0 <= i < len implies #[trigger] partly_blended(orig, pwi, ox as int, oy as int, w as int, h as int, data@, y as int, 0)[i]
                    == partly_blended(orig, pwi, ox as int, oy as int, w as int, h as int, data@, y + 1, 0)[i] by {
                    vstd::arithmetic::div_mod::lemma_div_basics_4(i, pwi);
                    assert(pwi * (ph as int) == (ph as int) * pwi) by (nonlinear_arith);
                    assert(i < pwi * ph as int);
                    vstd::arithmetic::div_mod::lemma_multiply_divide_lt(i, pwi, ph as int);
                }
                assert(partly_blended(orig, pwi, ox as int, oy as int, w as int, h as int, data@, y as int, 0)
                    =~= partly_blended(orig, pwi, ox as int, oy as int, w as int, h as int, data@, y + 1, 0));
            }
        }
        y += 1;
    }
    proof {
        assert(partly_blended(orig, pwi, ox as int, oy as int, w as int, h as int, data@, h as int, 0)
            =~= blended(orig, pwi, ox as int, oy as int, w as int, h as int, data@));
        assert forall|i: int| 0 <= i < len implies premultiplied(#[trigger] pixmap_pixels(*pixmap)[i]) by {
            if under_glyph(pwi, ox as int, oy as int, w as int, h as int, i) && coverage_at(data@, pwi, ox as int, oy as int, w as int, i) != 0 {
                lemma_blend_over_valid(orig[i], coverage_at(data@, pwi, ox as int, oy as int, w as int, i) as int);
            }
        }
    }
}

// ---------------------------------------------------------------------------
// Composing a line of glyphs
// ---------------------------------------------------------------------------

/// A rasterised glyph: its coverage mask (`width` × `height`, row-major)
/// placed with its top-left corner at `(x, y)` in layout pixels.
pub struct GlyphImage {
    /// Left edge.
    pub x: i32,
    /// Top edge.
    pub y: i32,
    /// Mask width.
    pub width: u32,
    /// Mask height.
    pub height: u32,
    /// Coverage values, row-major.
    pub data: Vec<u8>,
}

/// The glyph has a non-empty mask (empty ones are skipped).
pub open spec fn visible(g: GlyphImage) -> bool {
    g.width > 0 && g.height > 0
}

/// The smallest box `(min_x, min_y, max_x, max_y)` holding all visible
/// glyphs, if there is one.
pub open spec fn glyph_bounds(gs: Seq<GlyphImage>) -> Option<(int, int, int, int)>
    decreases gs.len(),
{
    if gs.len() == 0 {
        None
    } else {
        let prev = glyph_bounds(gs.drop_last());
        let g = gs.last();
        if !visible(g) {
            prev
        } else {
            match prev {
                None => Some((g.x as int, g.y as int, g.x + g.width, g.y + g.height)),
                Some((a, b, c, d)) => Some(
                    (
                        if g.x < a {
                            g.x as int
                        } else {
                            a
                        },
                        if g.y < b {
                            g.y as int
                        } else {
                            b
                        },
                        if g.x + g.width > c {
                            g.x + g.width
                        } else {
                            c
                        },
                        if g.y + g.height > d {
                            g.y + g.height
                        } else {
                            d
                        },
                    ),
                ),
            }
        }
    }
}

/// The pixels after blending the visible glyphs of `gs`, in order, into
/// `base`, a pixmap `pw` wide whose top-left corner is at `(x0, y0)`.
pub open spec fn composed(gs: Seq<GlyphImage>, base: Seq<Rgba>, pw: int, x0: int, y0: int) -> Seq<
    Rgba,
>
    decreases gs.len(),
{
    if gs.len() == 0 {
        base
    } else {
        let p = composed(gs.drop_last(), base, pw, x0, y0);
        let g = gs.last();
        if visible(g) {
            blended(p, pw, g.x - x0, g.y - y0, g.width as int, g.height as int, g.data@)
        } else {
            p
        }
    }
}

/// `n` transparent pixels.
pub open spec fn transparent(n: nat) -> Seq<Rgba> {
    Seq::new(n, |i: int| (0u8, 0u8, 0u8, 0u8))
}

/// The glyphs fit the 32-bit layout arithmetic: every visible glyph's far
/// edges, its mask size and its mask index fit an `i32`, its mask holds
/// `width * height` values, and the box around all of them gives a pixmap
/// that `Pixmap::new` accepts and whose pixel index fits an `i32`.
pub open spec fn glyphs_fit(gs: Seq<GlyphImage>) -> bool {
    &&& forall|k: int|
        0 <= k < gs.len() && visible(#[trigger] gs[k]) ==> {
            &&& gs[k].x + gs[k].width <= i32::MAX
            &&& gs[k].y + gs[k].height <= i32::MAX
            &&& gs[k].width <= i32::MAX
            &&& gs[k].height <= i32::MAX
            &&& gs[k].width * gs[k].height <= gs[k].data@.len()
            &&& gs[k].width * gs[k].height <= 0x8000_0000
        }
    &&& glyph_bounds(gs) matches Some((x0, y0, x1, y1)) ==> {
        &&& x1 - x0 <= i32::MAX
        &&& y1 - y0 <= i32::MAX
        &&& pixmap_size_ok(x1 - x0, y1 - y0)
        &&& (x1 - x0) * (y1 - y0) <= 0x8000_0000
    }
}

proof fn lemma_bounds_contain(gs: Seq<GlyphImage>, k: int)
    requires
        0 <= k < gs.len(),
        visible(gs[k]),
    ensures
        glyph_bounds(gs) matches Some((x0, y0, x1, y1)) && x0 <= gs[k].x && y0 <= gs[k].y
            && gs[k].x + gs[k].width <= x1 && gs[k].y + gs[k].height <= y1,
    decreases gs.len(),
{
    if k < gs.len() - 1 {
        lemma_bounds_contain(gs.drop_last(), k);
    } else {
        if gs.len() > 1 {
            lemma_bounds_some_or_none(gs.drop_last());
        }
    }
}

proof fn lemma_bounds_some_or_none(gs: Seq<GlyphImage>)
    ensures
        glyph_bounds(gs) matches Some((x0, y0, x1, y1)) ==> x0 < x1 && y0 < y1,
    decreases gs.len(),
{
    if gs.len() > 0 {
        lemma_bounds_some_or_none(gs.drop_last());
    }
}

/// The box around the visible glyphs, as [`glyph_bounds`] gives it.
fn glyph_box(glyphs: &Vec<GlyphImage>) -> (r: Option<(i64, i64, i64, i64)>)
    ensures
        match glyph_bounds(glyphs@) {
            None => r is None,
            Some((a, b, c, d)) => r == Some((a as i64, b as i64, c as i64, d as i64)),
        },
        r matches Some((a, b, c, d)) ==> glyph_bounds(glyphs@) == Some(
            (a as int, b as int, c as int, d as int),
        ) && i32::MIN <= a && i32::MIN <= b && c <= i32::MAX + u32::MAX && d <= i32::MAX
            + u32::MAX,
{
    let n = glyphs.len();
    let mut found = false;
    let mut min_x: i64 = 0;
    let mut min_y: i64 = 0;
    let mut max_x: i64 = 0;
    let mut max_y: i64 = 0;
    let mut k: usize = 0;
    while k < n
        invariant
            n == glyphs@.len(),
            k <= n,
            match glyph_bounds(glyphs@.take(k as int)) {
                None => !found,
                Some((a, b, c, d)) => found && a == min_x && b == min_y && c == max_x && d
                    == max_y,
            },
            i32::MIN <= min_x,
            i32::MIN <= min_y,
            max_x <= i32::MAX + u32::MAX,
            max_y <= i32::MAX + u32::MAX,
        decreases n - k,
    {
        let g = &glyphs[k];
        assert(glyphs@.take(k + 1).drop_last() =~= glyphs@.take(k as int));
        assert(glyphs@.take(k + 1).last() == glyphs@[k as int]);
        if g.width > 0 && g.height > 0 {
            let gx = g.x as i64;
            let gy = g.y as i64;
            let gx1 = gx + g.width as i64;
            let gy1 = gy + g.height as i64;
            if !found {
                min_x = gx;
                min_y = gy;
                max_x = gx1;
                max_y = gy1;
                found = true;
            } else {
                if gx < min_x {
                    min_x = gx;
                }
                if gy < min_y {
                    min_y = gy;
                }
                if gx1 > max_x {
                    max_x = gx1;
                }
                if gy1 > max_y {
                    max_y = gy1;
                }
            }
        }
        k += 1;
    }
    assert(glyphs@.take(n as int) =~= glyphs@);
    if found {
        Some((min_x, min_y, max_x, max_y))
    } else {
        None
    }
}

/// Whether the glyphs fit the layout arithmetic ([`glyphs_fit`]).
pub fn glyphs_fit_check(glyphs: &Vec<GlyphImage>) -> (ok: bool)
    ensures
        ok == glyphs_fit(glyphs@),
{
    let n = glyphs.len();
    let mut k: usize = 0;
    while k < n
        invariant
            n == glyphs@.len(),
            k <= n,
            forall|j: int|
                0 <= j < k && visible(#[trigger] glyphs@[j]) ==> {
                    &&& glyphs@[j].x + glyphs@[j].width <= i32::MAX
                    &&& glyphs@[j].y + glyphs@[j].height <= i32::MAX
                    &&& glyphs@[j].width <= i32::MAX
                    &&& glyphs@[j].height <= i32::MAX
                    &&& glyphs@[j].width * glyphs@[j].height <= glyphs@[j].data@.len()
                    &&& glyphs@[j].width * glyphs@[j].height <= 0x8000_0000
                },
        decreases n - k,
    {
        let g = &glyphs[k];
        if g.width > 0 && g.height > 0 {
            assert(g.width as u64 * g.height as u64 <= u32::MAX as u64 * u32::MAX as u64)
                by (nonlinear_arith);
            let area: u64 = g.width as u64 * g.height as u64;
            if g.x as i64 + g.width as i64 > 0x7fff_ffff || g.y as i64 + g.height as i64
                > 0x7fff_ffff || g.width > 0x7fff_ffff || g.height > 0x7fff_ffff || area
                > g.data.len() as u64 || area > 0x8000_0000 {
                assert(visible(glyphs@[k as int]));
                return false;
            }
        }
        k += 1;
    }
    match glyph_box(glyphs) {
        None => true,
        Some((x0, y0, x1, y1)) => {
            proof {
                lemma_bounds_some_or_none(glyphs@);
            }
            let w = x1 - x0;
            let h = y1 - y0;
            if w > 0x7fff_ffff || h > 0x7fff_ffff || w * 4 > 0x7fff_ffff {
                return false;
            }
            assert(w as u64 * h as u64 <= 0x7fff_ffff * 0x7fff_ffff) by (nonlinear_arith)
                requires
                    0 < w <= 0x7fff_ffff,
                    0 < h <= 0x7fff_ffff,
            ;
            let area: u64 = w as u64 * h as u64;
            if area > 0x8000_0000 {
                return false;
            }
            area * 4 <= usize::MAX as u64
        },
    }
}

/// Composes the glyphs as [`compose_glyphs`] does when they fit the layout
/// arithmetic, and gives `None` when they do not.
pub fn try_compose_glyphs(glyphs: &Vec<GlyphImage>) -> (r: Option<(Pixmap, u32, u32)>)
    ensures
        r is Some <==> glyphs_fit(glyphs@),
        r matches Some(t) ==> composition_of(glyphs@, t),
{
    if glyphs_fit_check(glyphs) {
        Some(compose_glyphs(glyphs))
    } else {
        None
    }
}

/// `r` is the composition of the glyphs `gs`: a pixmap just large enough for
/// all visible glyphs with them blended in order, or a single transparent
/// pixel when no glyph is visible; with its width and height.
pub open spec fn composition_of(gs: Seq<GlyphImage>, r: (Pixmap, u32, u32)) -> bool {
    &&& pixmap_height(r.0) == r.2
    &&& exact_pixmap(r.0)
    &&& match glyph_bounds(gs) {
        None => r.1 == 1 && r.2 == 1 && pixmap_width(r.0) == 1 && pixmap_pixels(r.0) == transparent(
            1,
        ),
        Some((x0, y0, x1, y1)) => r.1 == x1 - x0 && r.2 == y1 - y0 && pixmap_width(r.0) == r.1
            && pixmap_pixels(r.0) == composed(gs, transparent((r.1 * r.2) as nat), r.1 as int, x0, y0),
    }
}

/// Composes the glyphs of one text layout into a pixmap just large enough
/// for all visible glyphs, blending them in order; with no visible glyph the
/// result is a single transparent pixel.  Returns the pixmap with its width
/// and height.
pub fn compose_glyphs(glyphs: &Vec<GlyphImage>) -> (r: (Pixmap, u32, u32))
    requires
        glyphs_fit(glyphs@),
    ensures
        composition_of(glyphs@, r),
{
    let n = glyphs.len();
    let bounds = glyph_box(glyphs);
    let found = bounds.is_some();
    let (min_x, min_y, max_x, max_y) = match bounds {
        Some(b) => b,
        None => (0, 0, 0, 0),
    };
    if !found {
        let pm = pixmap_new(1, 1);
        let pm = pm.unwrap();
        assert(pixmap_pixels(pm) =~= transparent(1));
        return (pm, 1, 1);
    }
    let width = (max_x - min_x) as u32;
    let height = (max_y - min_y) as u32;
    let pm = pixmap_new(width, height);
    let mut pm = pm.unwrap();
    let ghost base = pixmap_pixels(pm);
    assert(base =~= transparent((width * height) as nat));
    let mut k: usize = 0;
    while k < n
        invariant
            n == glyphs@.len(),
            k <= n,
            glyphs_fit(glyphs@),
            glyph_bounds(glyphs@) == Some((min_x as int, min_y as int, max_x as int, max_y as int)),
            width == max_x - min_x,
            height == max_y - min_y,
            pixmap_width(pm) == width,
            pixmap_height(pm) == height,
            exact_pixmap(pm),
            pixmap_pixels(pm) == composed(glyphs@.take(k as int), base, width as int, min_x as int, min_y as int),
            forall|i: int| 0 <= i < pixmap_pixels(pm).len() ==> premultiplied(#[trigger] pixmap_pixels(pm)[i]),
        decreases n - k,
    {
        let g = &glyphs[k];
        assert(glyphs@.take(k + 1).drop_last() =~= glyphs@.take(k as int));
        assert(glyphs@.take(k + 1).last() == glyphs@[k as int]);
        if g.width > 0 && g.height > 0 {
            assert(visible(glyphs@[k as int]));
            proof {
                lemma_bounds_contain(glyphs@, k as int);
            }
            let ox = g.x as i64 - min_x;
            let oy = g.y as i64 - min_y;
            blend_glyph(&mut pm, ox, oy, g.width, g.height, g.data.as_slice());
        }
        k += 1;
    }
    assert(glyphs@.take(n as int) =~= glyphs@);
    (pm, width, height)
}

// ---------------------------------------------------------------------------
// Tinting
// ---------------------------------------------------------------------------

/// The tint of one pixel: a transparent pixel stays transparent; otherwise
/// the new alpha is `a * alpha_mult / 255` and each channel is the colour
/// channel scaled by that alpha, all kept to their low eight bits as the
/// `u8` casts do.
pub open spec fn tinted(p: Rgba, alpha_mult: int, cr: int, cg: int, cb: int) -> Rgba {
    if p.3 == 0 {
        (0u8, 0u8, 0u8, 0u8)
    } else {
        let na = (p.3 as int * alpha_mult) / 255;
        (
            ((cr * na / 255) % 256) as u8,
            ((cg * na / 255) % 256) as u8,
            ((cb * na / 255) % 256) as u8,
            (na % 256) as u8,
        )
    }
}

/// Tinting a pixel of alpha `a` stays within 32-bit arithmetic and gives a
/// valid premultiplied pixel (where it does not, the tint panics).
pub open spec fn tint_ok(a: int, alpha_mult: int, cr: int, cg: int, cb: int) -> bool {
    a == 0 || {
        let na = (a * alpha_mult) / 255;
        &&& a * alpha_mult <= u32::MAX
        &&& cr * na <= u32::MAX
        &&& cg * na <= u32::MAX
        &&& cb * na <= u32::MAX
        &&& (cr * na / 255) % 256 <= na % 256
        &&& (cg * na / 255) % 256 <= na % 256
        &&& (cb * na / 255) % 256 <= na % 256
    }
}

/// Every pixel of `px` can be tinted ([`tint_ok`]).
pub open spec fn tint_fits(px: Seq<Rgba>, alpha_mult: int, cr: int, cg: int, cb: int) -> bool {
    forall|i: int| 0 <= i < px.len() ==> tint_ok((#[trigger] px[i]).3 as int, alpha_mult, cr, cg, cb)
}

/// Whether a pixel of alpha `a` can be tinted ([`tint_ok`]).
fn tint_ok_check(a: u8, alpha_mult: u32, cr: u32, cg: u32, cb: u32) -> (ok: bool)
    ensures
        ok == tint_ok(a as int, alpha_mult as int, cr as int, cg as int, cb as int),
{
    if a == 0 {
        return true;
    }
    assert(a as u64 * alpha_mult as u64 <= 255 * u32::MAX as u64) by (nonlinear_arith)
        requires
            a <= 255,
    ;
    let prod: u64 = a as u64 * alpha_mult as u64;
    if prod > 0xffff_ffff {
        return false;
    }
    let na: u64 = prod / 255;
    assert(na <= 0xffff_ffff);
    assert(cr as u64 * na <= u32::MAX as u64 * u32::MAX as u64) by (nonlinear_arith)
        requires
            na <= 0xffff_ffff,
    ;
    assert(cg as u64 * na <= u32::MAX as u64 * u32::MAX as u64) by (nonlinear_arith)
        requires
            na <= 0xffff_ffff,
    ;
    assert(cb as u64 * na <= u32::MAX as u64 * u32::MAX as u64) by (nonlinear_arith)
        requires
            na <= 0xffff_ffff,
    ;
    let r = cr as u64 * na;
    let g = cg as u64 * na;
    let b = cb as u64 * na;
    if r > 0xffff_ffff || g > 0xffff_ffff || b > 0xffff_ffff {
        return false;
    }
    (r / 255) % 256 <= na % 256 && (g / 255) % 256 <= na % 256 && (b / 255) % 256 <= na % 256
}

/// The pixels of `p` that its size covers: the first `width * height` of its
/// buffer.
pub open spec fn covered_pixels(p: Pixmap) -> Seq<Rgba> {
    pixmap_pixels(p).take(pixmap_width(p) * pixmap_height(p))
}

/// `src` can be tinted: its buffer holds whole pixels (reading pixels from
/// it panics otherwise) and every pixel its size covers can be tinted.
pub open spec fn tintable(src: Pixmap, alpha_mult: int, cr: int, cg: int, cb: int) -> bool {
    &&& pixmap_byte_len(src) % 4 == 0
    &&& tint_fits(covered_pixels(src), alpha_mult, cr, cg, cb)
}

/// `dst` is `src` recoloured: a fresh pixmap of the same size whose pixels
/// are the tints of the pixels `src`'s size covers.
pub open spec fn tint_of(src: Pixmap, dst: Pixmap, alpha_mult: int, cr: int, cg: int, cb: int) -> bool {
    &&& pixmap_width(dst) == pixmap_width(src)
    &&& pixmap_height(dst) == pixmap_height(src)
    &&& exact_pixmap(dst)
    &&& pixmap_pixels(dst) == covered_pixels(src).map_values(
        |p: Rgba| tinted(p, alpha_mult, cr, cg, cb),
    )
}

/// The width, the height and the number of covered pixels of `src`, whose
/// buffer holds whole pixels.
fn covered_size(src: &Pixmap) -> (r: (u32, u32, usize))
    requires
        pixmap_byte_len(*src) % 4 == 0,
    ensures
        r.0 == pixmap_width(*src),
        r.1 == pixmap_height(*src),
        r.2 == r.0 * r.1,
        r.2 <= pixmap_pixels(*src).len(),
        pixmap_size_ok(r.0 as int, r.1 as int),
{
    let w = pixmap_width_of(src);
    let h = pixmap_height_of(src);
    let blen = pixmap_byte_len_of(src);
    assert(w as int * h as int * 4 == h as int * w as int * 4) by (nonlinear_arith);
    assert(w as int * h as int <= blen / 4);
    assert(w as int * h as int <= u32::MAX as int * u32::MAX as int) by (nonlinear_arith);
    let n = (w as u64 * h as u64) as usize;
    (w, h, n)
}

/// Whether `src` can be tinted ([`tintable`]).
pub fn tint_fits_check(src: &Pixmap, cr: u32, cg: u32, cb: u32, alpha_mult: u32) -> (ok: bool)
    ensures
        ok == tintable(*src, alpha_mult as int, cr as int, cg as int, cb as int),
{
    if pixmap_byte_len_of(src) % 4 != 0 {
        return false;
    }
    let (w, h, len) = covered_size(src);
    let ghost srcp = pixmap_pixels(*src);
    let ghost cov = covered_pixels(*src);
    let mut i: usize = 0;
    while i < len
        invariant
            len == cov.len(),
            len <= srcp.len(),
            cov == covered_pixels(*src),
            cov == srcp.take(len as int),
            srcp == pixmap_pixels(*src),
            pixmap_byte_len(*src) % 4 == 0,
            i <= len,
            forall|j: int|
                0 <= j < i ==> tint_ok(
                    (#[trigger] cov[j]).3 as int,
                    alpha_mult as int,
                    cr as int,
                    cg as int,
                    cb as int,
                ),
        decreases len - i,
    {
        let p = pixmap_pixel(src, i);
        assert(p == cov[i as int]);
        if !tint_ok_check(p.3, alpha_mult, cr, cg, cb) {
            assert(!tint_fits(cov, alpha_mult as int, cr as int, cg as int, cb as int));
            return false;
        }
        i += 1;
    }
    true
}

/// Tints `src` as [`tint_pixmap`] does when it can be tinted, and gives
/// `None` when it cannot.
pub fn try_tint_pixmap(src: &Pixmap, cr: u32, cg: u32, cb: u32, alpha_mult: u32) -> (r: Option<
    Pixmap,
>)
    ensures
        r is Some <==> tintable(*src, alpha_mult as int, cr as int, cg as int, cb as int),
        r matches Some(dst) ==> tint_of(
            *src,
            dst,
            alpha_mult as int,
            cr as int,
            cg as int,
            cb as int,
        ),
{
    if tint_fits_check(src, cr, cg, cb, alpha_mult) {
        Some(tint_pixmap(src, cr, cg, cb, alpha_mult))
    } else {
        None
    }
}

/// A copy of `src` recoloured with the colour `(cr, cg, cb)` (channels scaled
/// to 0–255) and its alpha multiplied by `alpha_mult / 255`: the coverage of
/// `src` is kept, the colour replaced.  The copy has `src`'s size; pixels of
/// `src`'s buffer beyond that size are not read.
pub fn tint_pixmap(src: &Pixmap, cr: u32, cg: u32, cb: u32, alpha_mult: u32) -> (dst: Pixmap)
    requires
        tintable(*src, alpha_mult as int, cr as int, cg as int, cb as int),
    ensures
        tint_of(*src, dst, alpha_mult as int, cr as int, cg as int, cb as int),
{
    let (w, h, len) = covered_size(src);
    let ghost srcp = pixmap_pixels(*src);
    let ghost cov = covered_pixels(*src);
    let dst = pixmap_new(w, h);
    let mut dst = dst.unwrap();
    let mut i: usize = 0;
    while i < len
        invariant
            len == cov.len(),
            len <= srcp.len(),
            len == w * h,
            cov == srcp.take(len as int),
            srcp == pixmap_pixels(*src),
            pixmap_byte_len(*src) % 4 == 0,
            pixmap_width(dst) == w,
            pixmap_height(dst) == h,
            pixmap_byte_len(dst) == w * h * 4,
            pixmap_pixels(dst).len() == len,
            i <= len,
            forall|j: int| 0 <= j < len ==> tint_ok(
                (#[trigger] cov[j]).3 as int,
                alpha_mult as int,
                cr as int,
                cg as int,
                cb as int,
            ),
            forall|j: int|
                0 <= j < i ==> #[trigger] pixmap_pixels(dst)[j] == tinted(
                    cov[j],
                    alpha_mult as int,
                    cr as int,
                    cg as int,
                    cb as int,
                ),
        decreases len - i,
    {
        let s = pixmap_pixel(src, i);
        assert(s == cov[i as int]);
        let sa = s.3 as u32;
        let ghost before = pixmap_pixels(dst);
        assert((w * h * 4) as int % 4 == 0) by (nonlinear_arith);
        if sa == 0 {
            let ok = pixmap_set_pixel(&mut dst, i, 0, 0, 0, 0);
            assert(ok);
        } else {
            assert(tint_ok(cov[i as int].3 as int, alpha_mult as int, cr as int, cg as int, cb as int));
            let new_a = (sa * alpha_mult) / 255;
            let new_r = (cr * new_a) / 255;
            let new_g = (cg * new_a) / 255;
            let new_b = (cb * new_a) / 255;
            let ok = pixmap_set_pixel(
                &mut dst,
                i,
                (new_r % 256) as u8,
                (new_g % 256) as u8,
                (new_b % 256) as u8,
                (new_a % 256) as u8,
            );
            assert(ok);
        }
        assert forall|j: int| 0 <= j < i + 1 implies #[trigger] pixmap_pixels(dst)[j] == tinted(
            cov[j],
            alpha_mult as int,
            cr as int,
            cg as int,
            cb as int,
        ) by {
            if j < i {
                assert(pixmap_pixels(dst)[j] == before[j]);
            }
        }
        i += 1;
    }
    assert(pixmap_pixels(dst) =~= cov.map_values(
        |p: Rgba| tinted(p, alpha_mult as int, cr as int, cg as int, cb as int),
    ));
    dst
}

// ---------------------------------------------------------------------------
// Laws of blending and tinting
// ---------------------------------------------------------------------------

/// Full coverage paints opaque white, whatever was below.
pub proof fn full_coverage_is_opaque_white(d: Rgba)
    ensures
        blend_over(d, 255) == (255u8, 255u8, 255u8, 255u8),
{
}

/// On a transparent pixel, a glyph leaves its coverage as white of that
/// opacity: every channel, premultiplied, equals the coverage.
pub proof fn coverage_on_transparent_is_white(c: u8)
    ensures
        blend_over((0u8, 0u8, 0u8, 0u8), c as int) == (c, c, c, c),
{
    assert((255 * (c as int)) / 255 == c as int);
}

/// Source-over never makes a pixel more transparent: the blended alpha is at
/// least the coverage and at least the alpha below.
pub proof fn blending_only_adds_opacity(d: Rgba, sa: int)
    requires
        0 <= sa <= 255,
    ensures
        blend_over(d, sa).3 >= sa,
        blend_over(d, sa).3 >= d.3,
{
    let a = d.3 as int;
    assert(0 <= (a * (255 - sa)) / 255 <= 255 - sa) by (nonlinear_arith)
        requires
            0 <= a <= 255,
            0 <= sa <= 255,
    ;
    assert((a * (255 - sa)) / 255 >= a - sa) by (nonlinear_arith)
        requires
            0 <= a <= 255,
            0 <= sa <= 255,
    ;
}

/// A transparent pixel stays transparent under any tint.
pub proof fn tint_keeps_transparent_pixels(alpha_mult: int, cr: int, cg: int, cb: int)
    ensures
        tinted((0u8, 0u8, 0u8, 0u8), alpha_mult, cr, cg, cb) == (0u8, 0u8, 0u8, 0u8),
{
}

/// Tinting the white pixels that glyphs leave with white at full opacity
/// changes nothing.
pub proof fn white_full_tint_is_identity(c: u8)
    ensures
        tinted((c, c, c, c), 255, 255, 255, 255) == (c, c, c, c),
{
    assert((c as int * 255) / 255 == c as int);
}

/// A tint at full opacity keeps each pixel's alpha and gives every channel
/// the tint colour scaled by that alpha.
pub proof fn full_opacity_tint_keeps_alpha(p: Rgba, cr: int, cg: int, cb: int)
    requires
        p.3 != 0,
        0 <= cr <= 255,
        0 <= cg <= 255,
        0 <= cb <= 255,
    ensures
        tinted(p, 255, cr, cg, cb) == (
            (cr * p.3 / 255) as u8,
            (cg * p.3 / 255) as u8,
            (cb * p.3 / 255) as u8,
            p.3,
        ),
{
    let a = p.3 as int;
    assert((a * 255) / 255 == a);
    assert(0 <= cr * a / 255 < 256) by (nonlinear_arith)
        requires
            0 <= cr <= 255,
            0 <= a <= 255,
    ;
    assert(0 <= cg * a / 255 < 256) by (nonlinear_arith)
        requires
            0 <= cg <= 255,
            0 <= a <= 255,
    ;
    assert(0 <= cb * a / 255 < 256) by (nonlinear_arith)
        requires
            0 <= cb <= 255,
            0 <= a <= 255,
    ;
}

/// A glyph's coverage value at column `x`, row `y` lands on the pixmap pixel
/// at column `ox + x`, row `oy + y`: that pixel is blended with it when it is
/// non-zero and unchanged when it is zero.
pub proof fn glyph_cell_lands_at_its_offset(
    pixels: Seq<Rgba>,
    pw: int,
    ox: int,
    oy: int,
    w: int,
    h: int,
    data: Seq<u8>,
    x: int,
    y: int,
)
    requires
        0 <= ox,
        0 <= oy,
        0 <= x < w,
        0 <= y < h,
        ox + x < pw,
        (oy + y) * pw + (ox + x) < pixels.len(),
    ensures
        ({
            let i = (oy + y) * pw + (ox + x);
            let c = data[y * w + x];
            blended(pixels, pw, ox, oy, w, h, data)[i] == if c != 0 {
                blend_over(pixels[i], c as int)
            } else {
                pixels[i]
            }
        }),
{
    lemma_row_col(pw, oy + y, ox + x);
}

/// A pixel outside the glyph's box keeps its value.
pub proof fn pixels_outside_the_glyph_are_unchanged(
    pixels: Seq<Rgba>,
    pw: int,
    ox: int,
    oy: int,
    w: int,
    h: int,
    data: Seq<u8>,
    i: int,
)
    requires
        0 <= i < pixels.len(),
        !under_glyph(pw, ox, oy, w, h, i),
    ensures
        blended(pixels, pw, ox, oy, w, h, data)[i] == pixels[i],
{
}

} // verus!
