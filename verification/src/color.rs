//! Colors and the tolerance within which two of them count as the same.

use crate::geometry::Ratio;
use vstd::prelude::*;

verus! {

/// The square of the largest distance between two colors: from black to
/// white, `3 * 255 * 255`.
pub const MAX_DELTA_SQUARED: u64 = 195075;

/// An 8-bit RGBA sample.
#[derive(Clone, Copy, Debug, PartialEq, Eq, Structural)]
pub struct Color {
    pub r: u8,
    pub g: u8,
    pub b: u8,
    pub a: u8,
}

impl Color {
    /// Red, green and blue agree; alpha is not looked at.
    pub open spec fn same_rgb(&self, other: Color) -> bool {
        self.r == other.r && self.g == other.g && self.b == other.b
    }

    /// The square of the Euclidean distance to `other` in RGB space.
    pub open spec fn spec_distance_squared(&self, other: Color) -> int {
        (self.r - other.r) * (self.r - other.r) + (self.g - other.g) * (self.g - other.g) + (
        self.b - other.b) * (self.b - other.b)
    }

    /// Every color channel turned into `255` minus itself; alpha stays.
    pub open spec fn inverted(&self) -> Color {
        Color {
            r: (255 - self.r) as u8,
            g: (255 - self.g) as u8,
            b: (255 - self.b) as u8,
            a: self.a,
        }
    }

    pub fn new(r: u8, g: u8, b: u8, a: u8) -> (c: Color)
        ensures
            c == (Color { r, g, b, a }),
    {
        Color { r, g, b, a }
    }

    /// The square of the Euclidean distance to `other` in RGB space.
    pub fn distance_squared(&self, other: Color) -> (d: u64)
        ensures
            d == self.spec_distance_squared(other),
            d <= MAX_DELTA_SQUARED,
    {
        let dr: u64 = channel_gap(self.r, other.r);
        let dg: u64 = channel_gap(self.g, other.g);
        let db: u64 = channel_gap(self.b, other.b);
        assert(dr * dr <= 65025 && dg * dg <= 65025 && db * db <= 65025) by (nonlinear_arith)
            requires
                dr <= 255,
                dg <= 255,
                db <= 255,
        ;
        assert(dr * dr == (self.r - other.r) * (self.r - other.r)) by (nonlinear_arith)
            requires
                dr == self.r - other.r || dr == other.r - self.r,
        ;
        assert(dg * dg == (self.g - other.g) * (self.g - other.g)) by (nonlinear_arith)
            requires
                dg == self.g - other.g || dg == other.g - self.g,
        ;
        assert(db * db == (self.b - other.b) * (self.b - other.b)) by (nonlinear_arith)
            requires
                db == self.b - other.b || db == other.b - self.b,
        ;
        dr * dr + dg * dg + db * db
    }
}

/// How far apart two channel values are.
fn channel_gap(a: u8, b: u8) -> (gap: u64)
    ensures
        gap == a - b || gap == b - a,
        gap <= 255,
{
    if a >= b {
        (a - b) as u64
    } else {
        (b - a) as u64
    }
}

/// Whether `c1` and `c2` are the same within `tolerance`.
///
/// At tolerance zero the red, green and blue channels must be equal. Above
/// zero the distance between the colors in RGB space must be at most
/// `tolerance` times the distance from black to white; the comparison is made
/// on the squares, so it is exact. Alpha is never looked at.
pub open spec fn spec_colors_match(c1: Color, c2: Color, tolerance: Ratio) -> bool {
    if tolerance.numer == 0 {
        c1.same_rgb(c2)
    } else {
        c1.spec_distance_squared(c2) * (tolerance.denom * tolerance.denom) <= MAX_DELTA_SQUARED * (
        tolerance.numer * tolerance.numer)
    }
}

/// Whether `c1` and `c2` are the same within `tolerance`, a fraction between
/// zero (only the same color matches) and one (every color matches).
pub fn colors_match(c1: Color, c2: Color, tolerance: Ratio) -> (matched: bool)
    requires
        tolerance.at_most_one(),
    ensures
        matched == spec_colors_match(c1, c2, tolerance),
{
    if tolerance.numer == 0 {
        return c1.r == c2.r && c1.g == c2.g && c1.b == c2.b;
    }
    let d: u128 = c1.distance_squared(c2) as u128;
    let n: u128 = tolerance.numer as u128;
    let m: u128 = tolerance.denom as u128;
    assert(n * n <= 0xffff_ffff * 0xffff_ffff && m * m <= 0xffff_ffff * 0xffff_ffff)
        by (nonlinear_arith)
        requires
            n <= 0xffff_ffff,
            m <= 0xffff_ffff,
    ;
    let nn: u128 = n * n;
    let mm: u128 = m * m;
    assert(d * mm <= 195075 * (0xffff_ffff * 0xffff_ffff) && 195075 * nn <= 195075 * (0xffff_ffff
        * 0xffff_ffff)) by (nonlinear_arith)
        requires
            d <= 195075,
            mm <= 0xffff_ffff * 0xffff_ffff,
            nn <= 0xffff_ffff * 0xffff_ffff,
    ;
    d * mm <= (MAX_DELTA_SQUARED as u128) * nn
}

/// A color matches itself at every tolerance, zero included.
pub proof fn lemma_color_matches_itself(c: Color, tolerance: Ratio)
    ensures
        spec_colors_match(c, c, tolerance),
{
    assert(c.spec_distance_squared(c) == 0);
    assert(0 <= MAX_DELTA_SQUARED * (tolerance.numer * tolerance.numer)) by (nonlinear_arith);
    assert(0 * (tolerance.denom * tolerance.denom) == 0);
}

/// Black and white are as far apart as two colors can be: they match at
/// tolerance one and at no tolerance below it, whatever their alpha.
pub proof fn lemma_black_matches_white_only_at_one(black: Color, white: Color, tolerance: Ratio)
    requires
        black.r == 0 && black.g == 0 && black.b == 0,
        white.r == 255 && white.g == 255 && white.b == 255,
        tolerance.at_most_one(),
    ensures
        spec_colors_match(black, white, tolerance) <==> tolerance.is_one(),
        spec_colors_match(white, black, tolerance) <==> tolerance.is_one(),
{
    let n = tolerance.numer as int;
    let m = tolerance.denom as int;
    assert(black.spec_distance_squared(white) == 195075);
    assert(white.spec_distance_squared(black) == 195075);
    if n == m {
    } else {
        assert(n * n < m * m) by (nonlinear_arith)
            requires
                0 <= n < m,
        ;
        assert(195075 * (m * m) > 195075 * (n * n)) by (nonlinear_arith)
            requires
                n * n < m * m,
        ;
    }
}

/// No color equals its own inverse, so the two never match at tolerance zero.
pub proof fn lemma_inverse_differs(c: Color, tolerance: Ratio)
    requires
        tolerance.numer == 0,
    ensures
        !spec_colors_match(c.inverted(), c, tolerance),
        !spec_colors_match(c, c.inverted(), tolerance),
{
}

} // verus!
