//! 8-bit RGBA colours.

use vstd::prelude::*;

use crate::decimal::{
    decimal, decimal_round_trip, digits_value, push_decimal, push_zero_padded, zero_padded,
    zero_padded_round_trip,
};
use crate::strings::{hex_digit, hex_upper_digit, owned, push_all, push_char};

verus! {

/// 8-bit RGBA colour.
#[derive(Debug, Clone, Copy, PartialEq, Eq, Structural)]
pub struct Color {
    /// Red channel, 0–255.
    pub r: u8,
    /// Green channel, 0–255.
    pub g: u8,
    /// Blue channel, 0–255.
    pub b: u8,
    /// Alpha channel, 0–255.
    pub a: u8,
}

/// The two uppercase hexadecimal digits of a byte, high nibble first.
pub open spec fn hex_byte(v: u8) -> Seq<char> {
    seq![hex_upper_digit(v as int / 16), hex_upper_digit(v as int % 16)]
}

/// The CSS form `#RRGGBB` of a colour (alpha is not part of it).
pub open spec fn css_hex(c: Color) -> Seq<char> {
    seq!['#'] + hex_byte(c.r) + hex_byte(c.g) + hex_byte(c.b)
}

/// `a / 255` written with three decimals, rounded to the nearest thousandth
/// (no value `a / 255` lies exactly half-way between two thousandths).
pub open spec fn alpha_fraction(a: u8) -> Seq<char> {
    let q = (2000 * a as int + 255) / 510;
    decimal((q / 1000) as nat) + "."@ + zero_padded((q % 1000) as nat, 3)
}

/// How a colour is written in SVG: `#RRGGBB` when opaque, otherwise
/// `rgba(r,g,b,alpha)` with the alpha as a fraction with three decimals.
pub open spec fn css_string(c: Color) -> Seq<char> {
    if c.a == 255 {
        css_hex(c)
    } else {
        "rgba("@ + decimal(c.r as nat) + ","@ + decimal(c.g as nat) + ","@ + decimal(c.b as nat)
            + ","@ + alpha_fraction(c.a) + ")"@
    }
}

impl Color {
    /// Construct from 8-bit RGB (opaque).
    pub fn rgb(r: u8, g: u8, b: u8) -> (c: Color)
        ensures
            c == (Color { r, g, b, a: 255 }),
    {
        Color { r, g, b, a: 255 }
    }

    /// Construct from 8-bit RGBA.
    pub fn rgba(r: u8, g: u8, b: u8, a: u8) -> (c: Color)
        ensures
            c == (Color { r, g, b, a }),
    {
        Color { r, g, b, a }
    }

    /// CSS hex string, e.g. `#3FA7FF`.
    pub fn to_hex(self) -> (s: String)
        ensures
            s@ == css_hex(self),
    {
        let mut s = String::new();
        push_char(&mut s, '#');
        push_char(&mut s, hex_digit(self.r / 16));
        push_char(&mut s, hex_digit(self.r % 16));
        push_char(&mut s, hex_digit(self.g / 16));
        push_char(&mut s, hex_digit(self.g % 16));
        push_char(&mut s, hex_digit(self.b / 16));
        push_char(&mut s, hex_digit(self.b % 16));
        assert(s@ =~= css_hex(self));
        s
    }

    /// The colour as SVG attributes write it: `#RRGGBB` when opaque, else
    /// `rgba(r,g,b,a)` with `a` the alpha fraction to three decimals.
    pub fn to_css_string(self) -> (s: String)
        ensures
            s@ == css_string(self),
    {
        if self.a == 255 {
            return self.to_hex();
        }
        let mut s = owned("rgba(");
        push_decimal(&mut s, self.r as u64);
        push_all(&mut s, ",");
        push_decimal(&mut s, self.g as u64);
        push_all(&mut s, ",");
        push_decimal(&mut s, self.b as u64);
        push_all(&mut s, ",");
        let q: u64 = (2000 * self.a as u64 + 255) / 510;
        push_decimal(&mut s, q / 1000);
        push_all(&mut s, ".");
        push_zero_padded(&mut s, q % 1000, 3);
        push_all(&mut s, ")");
        s
    }
}

// ---------------------------------------------------------------------------
// Laws
// ---------------------------------------------------------------------------

/// The value of an uppercase hexadecimal digit.
pub open spec fn hex_value(c: char) -> int {
    if '0' <= c && c <= '9' {
        c as int - '0' as int
    } else {
        c as int - 'A' as int + 10
    }
}

proof fn lemma_hex_digit_reads_back(d: int)
    requires
        0 <= d < 16,
    ensures
        hex_value(hex_upper_digit(d)) == d,
        ('0' <= hex_upper_digit(d) && hex_upper_digit(d) <= '9') || ('A' <= hex_upper_digit(d)
            && hex_upper_digit(d) <= 'F'),
{
}

/// The hexadecimal form reads back as the colour: `#`, then two uppercase
/// hexadecimal digits each for red, green and blue, in that order.
pub proof fn hex_reads_back(c: Color)
    ensures
        css_hex(c).len() == 7,
        css_hex(c)[0] == '#',
        16 * hex_value(css_hex(c)[1]) + hex_value(css_hex(c)[2]) == c.r,
        16 * hex_value(css_hex(c)[3]) + hex_value(css_hex(c)[4]) == c.g,
        16 * hex_value(css_hex(c)[5]) + hex_value(css_hex(c)[6]) == c.b,
        forall|i: int|
            1 <= i < 7 ==> ('0' <= #[trigger] css_hex(c)[i] && css_hex(c)[i] <= '9') || ('A'
                <= css_hex(c)[i] && css_hex(c)[i] <= 'F'),
{
    lemma_hex_digit_reads_back(c.r as int / 16);
    lemma_hex_digit_reads_back(c.r as int % 16);
    lemma_hex_digit_reads_back(c.g as int / 16);
    lemma_hex_digit_reads_back(c.g as int % 16);
    lemma_hex_digit_reads_back(c.b as int / 16);
    lemma_hex_digit_reads_back(c.b as int % 16);
    let h = css_hex(c);
    assert(h[1] == hex_upper_digit(c.r as int / 16) && h[2] == hex_upper_digit(c.r as int % 16));
    assert(h[3] == hex_upper_digit(c.g as int / 16) && h[4] == hex_upper_digit(c.g as int % 16));
    assert(h[5] == hex_upper_digit(c.b as int / 16) && h[6] == hex_upper_digit(c.b as int % 16));
}

/// The alpha of a translucent colour is written as `a / 255` rounded to the
/// nearest thousandth: the written number of thousandths `q` (its integer
/// part, a dot and three decimals, read back) lies within half a thousandth
/// of `1000 * a / 255`.
pub proof fn alpha_fraction_is_nearest_thousandth(a: u8)
    ensures
        ({
            let q = (2000 * a as int + 255) / 510;
            &&& alpha_fraction(a) == decimal((q / 1000) as nat) + "."@ + zero_padded(
                (q % 1000) as nat,
                3,
            )
            &&& digits_value(decimal((q / 1000) as nat)) * 1000 + digits_value(
                zero_padded((q % 1000) as nat, 3),
            ) == q
            &&& -255 <= 2 * (255 * q - 1000 * a as int) <= 255
        }),
{
    let q = (2000 * a as int + 255) / 510;
    decimal_round_trip((q / 1000) as nat);
    zero_padded_round_trip((q % 1000) as nat, 3);
    assert(q / 1000 * 1000 + q % 1000 == q);
    assert(510 * q <= 2000 * a as int + 255 < 510 * q + 510) by (nonlinear_arith)
        requires
            q == (2000 * a as int + 255) / 510,
    ;
}

} // verus!
