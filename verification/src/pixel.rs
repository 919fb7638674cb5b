//! Luminance quantization: a shaded color becomes one glyph from an
//! ordered palette, by mean channel brightness.  Brightness at or above
//! 1.0, or below 0.0, deliberately falls back to the background glyph
//! rather than saturating to a palette endpoint.

use vstd::prelude::*;

use crate::color::Color;
use crate::fx::SCALE;
use crate::fx::fdiv128;
use vstd::arithmetic::div_mod::lemma_div_is_ordered;
use vstd::arithmetic::div_mod::lemma_fundamental_div_mod;
use vstd::arithmetic::div_mod::lemma_mod_bound;

verus! {

/// Number of glyphs in the palette.
pub const PALETTE_LEN: i64 = 6;

/// The ordered glyph palette, darkest to brightest.
pub open spec fn s_glyph(i: int) -> char {
    if i == 0 {
        '.'
    } else if i == 1 {
        '-'
    } else if i == 2 {
        '+'
    } else if i == 3 {
        '*'
    } else if i == 4 {
        'X'
    } else {
        'M'
    }
}

/// The glyph at palette index `i`.
pub fn glyph(i: usize) -> (c: char)
    requires
        i < 6,
    ensures
        c == s_glyph(i as int),
{
    match i {
        0 => '.',
        1 => '-',
        2 => '+',
        3 => '*',
        4 => 'X',
        _ => 'M',
    }
}

/// Mean channel brightness of a color, in sub-units, rounded down.
pub open spec fn s_brightness(c: Color) -> int {
    (c.r + c.g + c.b) / 3
}

/// The palette index a brightness falls in: `floor(b * 6 / SCALE)`.
pub open spec fn s_palette_index(b: int) -> int {
    (b * 6) / (SCALE as int)
}

/// The glyph a shaded color quantizes to: its palette entry when the
/// index is in range, the background glyph otherwise.
pub open spec fn s_pixel_char(c: Color) -> char {
    let i = s_palette_index(s_brightness(c));
    if 0 <= i < 6 {
        s_glyph(i)
    } else {
        ' '
    }
}

#[derive(Clone, Copy, PartialEq, Eq, Structural, Debug)]
pub struct Pixel(pub char);

impl Pixel {
    /// Quantize a shaded color to its glyph.
    pub fn new(color: Color) -> (p: Pixel)
        requires
            i64::MIN <= color.r + color.g + color.b <= i64::MAX,
        ensures
            p.0 == s_pixel_char(color),
    {
        let s: i128 = color.r as i128 + color.g as i128 + color.b as i128;
        let b: i64 = fdiv128(s, 3);
        let idx: i64 = fdiv128((b as i128) * 6, SCALE);
        if 0 <= idx && idx < 6 {
            Pixel(glyph(idx as usize))
        } else {
            Pixel(' ')
        }
    }

    /// The background pixel.
    pub fn default() -> (p: Pixel)
        ensures
            p.0 == ' ',
    {
        Pixel(' ')
    }
}

/// Quantization boundaries: brightness exactly 0.0 maps to the darkest
/// glyph, and brightness at or above 1.0 maps to the background glyph,
/// never to the brightest palette entry.
pub proof fn lemma_quantization_boundaries(c: Color)
    ensures
        s_brightness(c) == 0 ==> s_pixel_char(c) == '.',
        s_brightness(c) >= SCALE ==> s_pixel_char(c) == ' ',
        s_brightness(c) < 0 ==> s_pixel_char(c) == ' ',
{
    let b = s_brightness(c);
    if b == 0 {
        assert(s_palette_index(0) == 0);
    } else if b >= SCALE {
        assert(b * 6 >= 6 * 1024) by (nonlinear_arith)
            requires
                b >= 1024,
        ;
        lemma_div_is_ordered((6 * 1024) as int, b * 6, SCALE as int);
        assert(((6 * 1024) as int) / (SCALE as int) == 6);
    } else if b < 0 {
        assert(b * 6 <= -1) by (nonlinear_arith)
            requires
                b < 0,
        ;
        let q = s_palette_index(b);
        lemma_fundamental_div_mod(b * 6, SCALE as int);
        lemma_mod_bound(b * 6, SCALE as int);
        if q >= 0 {
            assert((SCALE as int) * q >= 0) by (nonlinear_arith)
                requires
                    q >= 0,
            ;
        }
    }
}

} // verus!
