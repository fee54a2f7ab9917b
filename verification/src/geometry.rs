//! Whole-number geometry: points, sizes and rectangles on a pixel grid, and
//! the fractions by which they are scaled.
//!
//! Coordinates are whole numbers. Wherever a fraction is needed (a scale
//! factor, a tolerance) it is a [`Ratio`], and scaling rounds to the nearest
//! whole number, halves away from zero.

use vstd::prelude::*;

verus! {

/// `a / b` rounded to the nearest whole number, halves away from zero.
pub open spec fn round_div(a: int, b: int) -> int
    recommends
        b > 0,
{
    if a >= 0 {
        (2 * a + b) / (2 * b)
    } else {
        -((2 * (-a) + b) / (2 * b))
    }
}

/// Dividing a multiple of `b` by `b` needs no rounding.
pub proof fn lemma_round_div_exact(v: int, b: int)
    requires
        b > 0,
    ensures
        round_div(v * b, b) == v,
{
    if v >= 0 {
        assert(v * b >= 0) by (nonlinear_arith)
            requires
                v >= 0,
                b > 0,
        ;
        assert((2 * (v * b) + b) / (2 * b) == v) by (nonlinear_arith)
            requires
                v >= 0,
                b > 0,
        ;
    } else {
        assert(v * b < 0) by (nonlinear_arith)
            requires
                v < 0,
                b > 0,
        ;
        assert((2 * (-(v * b)) + b) / (2 * b) == -v) by (nonlinear_arith)
            requires
                v < 0,
                b > 0,
        ;
    }
}

/// Dividing by at least as much as was multiplied moves a number towards zero.
pub proof fn lemma_round_div_shrinks(v: int, n: int, d: int)
    requires
        0 <= n <= d,
        d > 0,
    ensures
        v >= 0 ==> 0 <= round_div(v * n, d) <= v,
        v <= 0 ==> v <= round_div(v * n, d) <= 0,
{
    if v >= 0 {
        assert(0 <= v * n <= v * d) by (nonlinear_arith)
            requires
                v >= 0,
                0 <= n <= d,
        ;
        let a = v * n;
        assert(0 <= (2 * a + d) / (2 * d) <= v) by (nonlinear_arith)
            requires
                0 <= a <= v * d,
                d > 0,
                v >= 0,
        ;
    } else {
        assert(0 <= (-v) * n <= (-v) * d && v * n == -((-v) * n)) by (nonlinear_arith)
            requires
                v < 0,
                0 <= n <= d,
        ;
        let a = (-v) * n;
        assert(0 <= (2 * a + d) / (2 * d) <= -v) by (nonlinear_arith)
            requires
                0 <= a <= (-v) * d,
                d > 0,
                v < 0,
        ;
        if v * n == 0 {
            assert((2 * 0 + d) / (2 * d) == 0) by (nonlinear_arith)
                requires
                    d > 0,
            ;
        }
    }
}

/// A rounded quotient of a whole number by a whole number is no larger than
/// the number.
pub proof fn lemma_quotient_at_most_dividend(a: int, d: int)
    requires
        a >= 0,
        d >= 1,
    ensures
        0 <= round_div(a, d) <= a,
{
    assert(0 <= (2 * a + d) / (2 * d) <= a) by (nonlinear_arith)
        requires
            a >= 0,
            d >= 1,
    ;
}

/// Multiplying by at least as much as is divided by moves a number no nearer
/// to zero.
pub proof fn lemma_round_div_grows(v: int, n: int, d: int)
    requires
        v >= 0,
        0 < d <= n,
    ensures
        round_div(v * n, d) >= v,
{
    assert(v * n >= v * d >= 0) by (nonlinear_arith)
        requires
            v >= 0,
            0 < d <= n,
    ;
    let a = v * n;
    assert((2 * a + d) / (2 * d) >= v) by (nonlinear_arith)
        requires
            a >= v * d,
            v >= 0,
            d > 0,
    ;
}

/// What a quotient says of its dividend: `a / b` rounds to `q` exactly when
/// `a` lies within half of `b` of `q * b`, the upper half excluded.
pub proof fn lemma_round_div_bounds(a: int, b: int, q: int)
    requires
        a >= 0,
        b > 0,
    ensures
        round_div(a, b) == q <==> 2 * (q * b) - b <= 2 * a < 2 * (q * b) + b,
{
    let x = 2 * a + b;
    let d = 2 * b;
    assert(x / d == q <==> q * d <= x < q * d + d) by (nonlinear_arith)
        requires
            d > 0,
    ;
    assert(q * d == 2 * (q * b)) by (nonlinear_arith)
        requires
            d == 2 * b,
    ;
}

/// Dividing a whole number by a fraction of at most one and multiplying the
/// quotient by it again gives the number back.
pub proof fn lemma_round_trip(w: int, factor: Ratio)
    requires
        w >= 0,
        factor.is_positive(),
        factor.at_most_one(),
    ensures
        factor.spec_inverse().apply(w) >= 0,
        factor.apply(factor.spec_inverse().apply(w)) == w,
{
    let a = factor.numer as int;
    let b = factor.denom as int;
    if a == b {
        lemma_round_div_exact(w, b);
    } else {
        let m = round_div(w * b, a);
        lemma_round_div_grows(w, b, a);
        assert(w * b >= 0) by (nonlinear_arith)
            requires
                w >= 0,
                b > 0,
        ;
        assert(m * a >= 0) by (nonlinear_arith)
            requires
                m >= 0,
                a > 0,
        ;
        lemma_round_div_bounds(w * b, a, m);
        lemma_round_div_bounds(m * a, b, w);
    }
}

/// Only one whole number, multiplied by a fraction of at least one, rounds
/// to a given product: the product divided by the fraction.
pub proof fn lemma_round_trip_back(n: int, factor: Ratio)
    requires
        n >= 0,
        factor.at_least_one(),
    ensures
        factor.apply(n) >= 0,
        factor.spec_inverse().apply(factor.apply(n)) == n,
{
    let a = factor.numer as int;
    let b = factor.denom as int;
    if a == b {
        lemma_round_div_exact(n, b);
    } else {
        let w = round_div(n * a, b);
        lemma_round_div_grows(n, a, b);
        assert(n * a >= 0) by (nonlinear_arith)
            requires
                n >= 0,
                a > 0,
        ;
        assert(w * b >= 0) by (nonlinear_arith)
            requires
                w >= 0,
                b > 0,
        ;
        lemma_round_div_bounds(n * a, b, w);
        lemma_round_div_bounds(w * b, a, n);
    }
}

/// A non-negative fraction `numer / denom`.
///
/// Two ratios are equal when their fields are: `1/2` and `2/4` stand for the
/// same number but are different values.
#[derive(Clone, Copy, Debug, PartialEq, Eq, Structural)]
pub struct Ratio {
    pub numer: u32,
    pub denom: u32,
}

impl Ratio {
    /// The denominator is not zero.
    pub open spec fn is_valid(&self) -> bool {
        self.denom > 0
    }

    /// A valid fraction greater than zero.
    pub open spec fn is_positive(&self) -> bool {
        self.denom > 0 && self.numer > 0
    }

    /// A valid fraction equal to one.
    pub open spec fn is_one(&self) -> bool {
        self.denom > 0 && self.numer == self.denom
    }

    /// A valid fraction in `[0, 1]`.
    pub open spec fn at_most_one(&self) -> bool {
        self.denom > 0 && self.numer <= self.denom
    }

    /// A valid fraction in `[1, ..)`.
    pub open spec fn at_least_one(&self) -> bool {
        self.denom > 0 && self.numer >= self.denom
    }

    /// `v` times this fraction, rounded.
    pub open spec fn apply(&self, v: int) -> int {
        round_div(v * self.numer, self.denom as int)
    }

    pub open spec fn spec_inverse(&self) -> Ratio {
        Ratio { numer: self.denom, denom: self.numer }
    }

    pub fn new(numer: u32, denom: u32) -> (r: Ratio)
        ensures
            r == (Ratio { numer, denom }),
    {
        Ratio { numer, denom }
    }

    /// The fraction `1/1`.
    pub fn one() -> (r: Ratio)
        ensures
            r == (Ratio { numer: 1, denom: 1 }),
    {
        Ratio { numer: 1, denom: 1 }
    }

    /// The fraction `0/1`.
    pub fn zero() -> (r: Ratio)
        ensures
            r == (Ratio { numer: 0, denom: 1 }),
    {
        Ratio { numer: 0, denom: 1 }
    }

    /// The reciprocal; valid when this fraction is positive.
    pub fn inverse(&self) -> (r: Ratio)
        ensures
            r == self.spec_inverse(),
    {
        Ratio { numer: self.denom, denom: self.numer }
    }

    /// `magnitude` times this fraction, rounded.
    pub fn scale(&self, magnitude: u64) -> (scaled: u128)
        requires
            self.is_valid(),
        ensures
            scaled == self.apply(magnitude as int),
    {
        let n: u128 = self.numer as u128;
        let d: u128 = self.denom as u128;
        let v: u128 = magnitude as u128;
        assert(0 <= v * n <= 0xffff_ffff_ffff_ffff * 0xffff_ffff) by (nonlinear_arith)
            requires
                0 <= v <= 0xffff_ffff_ffff_ffff,
                0 <= n <= 0xffff_ffff,
        ;
        let a: u128 = v * n;
        (2 * a + d) / (2 * d)
    }
}

/// A position on the grid.
#[derive(Clone, Copy, Debug, PartialEq, Eq, Structural)]
pub struct Point {
    pub x: i64,
    pub y: i64,
}

/// `v` times `factor`, rounded, for a signed coordinate.
fn scale_coordinate(v: i64, factor: Ratio) -> (scaled: i64)
    requires
        factor.is_valid(),
        i64::MIN <= factor.apply(v as int) <= i64::MAX,
    ensures
        scaled == factor.apply(v as int),
{
    if v >= 0 {
        let m: u128 = factor.scale(v as u64);
        m as i64
    } else {
        let mag: u64 = (-(v as i128)) as u64;
        let m: u128 = factor.scale(mag);
        proof {
            let n = factor.numer as int;
            assert((-(v as int)) * n == -((v as int) * n)) by (nonlinear_arith);
            assert((v as int) * n <= 0) by (nonlinear_arith)
                requires
                    v < 0,
                    n >= 0,
            ;
            if (v as int) * n == 0 {
                assert(m == factor.apply(v as int));
                assert(m == 0) by (nonlinear_arith)
                    requires
                        m == (2 * 0 + factor.denom as int) / (2 * (factor.denom as int)),
                        factor.denom > 0,
                ;
            }
        }
        (-(m as i128)) as i64
    }
}

impl Point {
    /// `self` comes before `other` in scan order: columns left to right, and
    /// top to bottom within a column.
    pub open spec fn precedes(&self, other: Point) -> bool {
        self.x < other.x || (self.x == other.x && self.y < other.y)
    }

    pub open spec fn spec_scaled(&self, factor: Ratio) -> Point {
        Point { x: factor.apply(self.x as int) as i64, y: factor.apply(self.y as int) as i64 }
    }

    /// Both coordinates of the scaled point are within machine range.
    pub open spec fn scaled_fits(&self, factor: Ratio) -> bool {
        &&& i64::MIN <= factor.apply(self.x as int) <= i64::MAX
        &&& i64::MIN <= factor.apply(self.y as int) <= i64::MAX
    }

    pub open spec fn spec_distance_squared(&self, other: Point) -> int {
        (self.x - other.x) * (self.x - other.x) + (self.y - other.y) * (self.y - other.y)
    }

    pub fn new(x: i64, y: i64) -> (p: Point)
        ensures
            p == (Point { x, y }),
    {
        Point { x, y }
    }

    /// The point `(0, 0)`.
    pub fn zero() -> (p: Point)
        ensures
            p == (Point { x: 0, y: 0 }),
    {
        Point { x: 0, y: 0 }
    }

    /// Both coordinates times `factor`, each rounded to the nearest whole
    /// number, halves away from zero.
    pub fn scaled(&self, factor: Ratio) -> (p: Point)
        requires
            factor.is_valid(),
            self.scaled_fits(factor),
        ensures
            p == self.spec_scaled(factor),
    {
        Point { x: scale_coordinate(self.x, factor), y: scale_coordinate(self.y, factor) }
    }

    /// The square of the straight-line distance to `other`.
    pub fn distance_squared(&self, other: Point) -> (d: u128)
        requires
            self.spec_distance_squared(other) <= u128::MAX,
        ensures
            d == self.spec_distance_squared(other),
    {
        let dx: i128 = self.x as i128 - other.x as i128;
        let dy: i128 = self.y as i128 - other.y as i128;
        let ax: u128 = if dx >= 0 { dx as u128 } else { (-dx) as u128 };
        let ay: u128 = if dy >= 0 { dy as u128 } else { (-dy) as u128 };
        assert(ax * ax == dx * dx && 0 <= ax * ax <= 0xffff_ffff_ffff_ffff * 0xffff_ffff_ffff_ffff)
            by (nonlinear_arith)
            requires
                0 <= ax <= 0xffff_ffff_ffff_ffff,
                ax == dx || ax == -dx,
        ;
        assert(ay * ay == dy * dy && 0 <= ay * ay <= 0xffff_ffff_ffff_ffff * 0xffff_ffff_ffff_ffff)
            by (nonlinear_arith)
            requires
                0 <= ay <= 0xffff_ffff_ffff_ffff,
                ay == dy || ay == -dy,
        ;
        ax * ax + ay * ay
    }
}

/// Scaling a point by a fraction of at most one keeps it in machine range and
/// moves neither coordinate away from zero.
pub proof fn lemma_scaled_down_fits(p: Point, factor: Ratio)
    requires
        factor.at_most_one(),
    ensures
        p.scaled_fits(factor),
        p.x >= 0 ==> 0 <= p.spec_scaled(factor).x <= p.x,
        p.y >= 0 ==> 0 <= p.spec_scaled(factor).y <= p.y,
{
    lemma_round_div_shrinks(p.x as int, factor.numer as int, factor.denom as int);
    lemma_round_div_shrinks(p.y as int, factor.numer as int, factor.denom as int);
}

/// An extent on the grid.
#[derive(Clone, Copy, Debug, PartialEq, Eq, Structural)]
pub struct Size {
    pub width: u64,
    pub height: u64,
}

impl Size {
    pub open spec fn spec_scaled(&self, factor: Ratio) -> Size {
        Size {
            width: factor.apply(self.width as int) as u64,
            height: factor.apply(self.height as int) as u64,
        }
    }

    /// Both sides of the scaled size are within machine range.
    pub open spec fn scaled_fits(&self, factor: Ratio) -> bool {
        &&& factor.apply(self.width as int) <= u64::MAX
        &&& factor.apply(self.height as int) <= u64::MAX
    }

    pub fn new(width: u64, height: u64) -> (s: Size)
        ensures
            s == (Size { width, height }),
    {
        Size { width, height }
    }

    /// Both sides times `factor`, each rounded to the nearest whole number,
    /// halves up.
    pub fn scaled(&self, factor: Ratio) -> (s: Size)
        requires
            factor.is_valid(),
            self.scaled_fits(factor),
        ensures
            s == self.spec_scaled(factor),
    {
        let w: u128 = factor.scale(self.width);
        let h: u128 = factor.scale(self.height);
        Size { width: w as u64, height: h as u64 }
    }
}

/// Scaling a size by a fraction of at most one keeps it in machine range and
/// makes neither side longer.
pub proof fn lemma_size_scaled_down_fits(s: Size, factor: Ratio)
    requires
        factor.at_most_one(),
    ensures
        s.scaled_fits(factor),
        s.spec_scaled(factor).width <= s.width,
        s.spec_scaled(factor).height <= s.height,
{
    lemma_round_div_shrinks(s.width as int, factor.numer as int, factor.denom as int);
    lemma_round_div_shrinks(s.height as int, factor.numer as int, factor.denom as int);
}

/// An axis-aligned rectangle: the cells `(x, y)` with
/// `origin.x <= x < origin.x + size.width` and
/// `origin.y <= y < origin.y + size.height`.
#[derive(Clone, Copy, Debug, PartialEq, Eq, Structural)]
pub struct Rect {
    pub origin: Point,
    pub size: Size,
}

impl Rect {
    pub open spec fn spec_max_x(&self) -> int {
        self.origin.x + self.size.width
    }

    pub open spec fn spec_max_y(&self) -> int {
        self.origin.y + self.size.height
    }

    /// `point` is one of the cells of this rectangle.
    pub open spec fn spec_is_point_visible(&self, point: Point) -> bool {
        &&& self.origin.x <= point.x < self.spec_max_x()
        &&& self.origin.y <= point.y < self.spec_max_y()
    }

    /// `rect` lies within this rectangle, edges included.
    pub open spec fn spec_is_rect_visible(&self, rect: Rect) -> bool {
        &&& self.origin.x <= rect.origin.x
        &&& rect.spec_max_x() <= self.spec_max_x()
        &&& self.origin.y <= rect.origin.y
        &&& rect.spec_max_y() <= self.spec_max_y()
    }

    /// The cell after `point` in scan order: the one below it, or the top of
    /// the next column once the bottom edge is reached, or nothing once the
    /// right edge is reached too.
    pub open spec fn spec_iter_point(&self, point: Point) -> Option<Point> {
        if point.y + 1 < self.spec_max_y() {
            Some(Point { x: point.x, y: (point.y + 1) as i64 })
        } else if point.x + 1 < self.spec_max_x() {
            Some(Point { x: (point.x + 1) as i64, y: self.origin.y })
        } else {
            None
        }
    }

    pub open spec fn spec_scaled(&self, factor: Ratio) -> Rect {
        Rect { origin: self.origin.spec_scaled(factor), size: self.size.spec_scaled(factor) }
    }

    pub fn new(origin: Point, size: Size) -> (r: Rect)
        ensures
            r == (Rect { origin, size }),
    {
        Rect { origin, size }
    }

    /// The first column to the right of the rectangle.
    pub fn max_x(&self) -> (m: i128)
        ensures
            m == self.spec_max_x(),
    {
        self.origin.x as i128 + self.size.width as i128
    }

    /// The first row below the rectangle.
    pub fn max_y(&self) -> (m: i128)
        ensures
            m == self.spec_max_y(),
    {
        self.origin.y as i128 + self.size.height as i128
    }

    pub fn is_point_visible(&self, point: Point) -> (visible: bool)
        ensures
            visible == self.spec_is_point_visible(point),
    {
        self.origin.x <= point.x && (point.x as i128) < self.max_x() && self.origin.y <= point.y
            && (point.y as i128) < self.max_y()
    }

    pub fn is_rect_visible(&self, rect: Rect) -> (visible: bool)
        ensures
            visible == self.spec_is_rect_visible(rect),
    {
        self.origin.x <= rect.origin.x && rect.max_x() <= self.max_x() && self.origin.y
            <= rect.origin.y && rect.max_y() <= self.max_y()
    }

    pub fn iter_point(&self, point: Point) -> (next: Option<Point>)
        requires
            point.x < i64::MAX,
            point.y < i64::MAX,
        ensures
            next == self.spec_iter_point(point),
    {
        if (point.y as i128) + 1 < self.max_y() {
            Some(Point { x: point.x, y: point.y + 1 })
        } else if (point.x as i128) + 1 < self.max_x() {
            Some(Point { x: point.x + 1, y: self.origin.y })
        } else {
            None
        }
    }

    /// Origin and size times `factor`, each number rounded on its own.
    pub fn scaled(&self, factor: Ratio) -> (r: Rect)
        requires
            factor.is_valid(),
            self.origin.scaled_fits(factor),
            self.size.scaled_fits(factor),
        ensures
            r == self.spec_scaled(factor),
    {
        Rect { origin: self.origin.scaled(factor), size: self.size.scaled(factor) }
    }
}

} // verus!
