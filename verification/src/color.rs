//! Additive RGB colors in fixed point: `SCALE` sub-units stand for a
//! channel value of 1.0.  The math never clamps; only quantization does.

use vstd::prelude::*;

use crate::fx::SCALE;
use crate::fx::muldiv_trunc;
use crate::fx::tdiv;

verus! {

#[derive(Clone, Copy, PartialEq, Eq, Structural, Debug)]
pub struct Color {
    pub r: i64,
    pub g: i64,
    pub b: i64,
}

/// Fixed-point scaling of every channel by `s` sub-units per unit.
pub open spec fn s_cscale(c: Color, s: int) -> Color {
    Color {
        r: tdiv(c.r * s, SCALE as int) as i64,
        g: tdiv(c.g * s, SCALE as int) as i64,
        b: tdiv(c.b * s, SCALE as int) as i64,
    }
}

/// Channel-wise sum.
pub open spec fn s_cadd(a: Color, b: Color) -> Color {
    Color { r: (a.r + b.r) as i64, g: (a.g + b.g) as i64, b: (a.b + b.b) as i64 }
}

impl Color {
    /// Fixed-point scaling of every channel by `s` sub-units per unit.
    pub fn scale(&self, s: i64) -> (r: Color)
        requires
            -(0x7fff_ffff_ffff_ffff * 1024) <= self.r * s <= 0x7fff_ffff_ffff_ffff * 1024,
            -(0x7fff_ffff_ffff_ffff * 1024) <= self.g * s <= 0x7fff_ffff_ffff_ffff * 1024,
            -(0x7fff_ffff_ffff_ffff * 1024) <= self.b * s <= 0x7fff_ffff_ffff_ffff * 1024,
        ensures
            r == s_cscale(*self, s as int),
    {
        Color {
            r: muldiv_trunc(self.r, s, SCALE),
            g: muldiv_trunc(self.g, s, SCALE),
            b: muldiv_trunc(self.b, s, SCALE),
        }
    }

    pub fn add(&self, o: Color) -> (r: Color)
        requires
            i64::MIN <= self.r + o.r <= i64::MAX,
            i64::MIN <= self.g + o.g <= i64::MAX,
            i64::MIN <= self.b + o.b <= i64::MAX,
        ensures
            r == s_cadd(*self, o),
    {
        Color { r: self.r + o.r, g: self.g + o.g, b: self.b + o.b }
    }
}

/// Full-intensity white.
pub fn white() -> (c: Color)
    ensures
        c == (Color { r: SCALE, g: SCALE, b: SCALE }),
{
    Color { r: SCALE, g: SCALE, b: SCALE }
}

/// Full-intensity red.
pub fn red() -> (c: Color)
    ensures
        c == (Color { r: SCALE, g: 0, b: 0 }),
{
    Color { r: SCALE, g: 0, b: 0 }
}

/// Full-intensity green.
pub fn green() -> (c: Color)
    ensures
        c == (Color { r: 0, g: SCALE, b: 0 }),
{
    Color { r: 0, g: SCALE, b: 0 }
}

/// Full-intensity blue.
pub fn blue() -> (c: Color)
    ensures
        c == (Color { r: 0, g: 0, b: SCALE }),
{
    Color { r: 0, g: 0, b: SCALE }
}

} // verus!
