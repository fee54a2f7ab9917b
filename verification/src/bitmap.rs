//! Bitmaps: a pixel buffer with a size and a scale, pixel lookup, cropping,
//! and the search for a color or a smaller bitmap inside a larger one.

use crate::color::colors_match;
use crate::color::spec_colors_match;
use crate::color::Color;
use crate::geometry::lemma_round_div_exact;
use crate::geometry::lemma_quotient_at_most_dividend;
use crate::geometry::lemma_round_div_grows;
use crate::geometry::lemma_round_div_shrinks;
use crate::geometry::lemma_round_trip;
use crate::geometry::lemma_round_trip_back;
use crate::geometry::lemma_scaled_down_fits;
use crate::geometry::lemma_size_scaled_down_fits;
use crate::geometry::Point;
use crate::geometry::Ratio;
use crate::geometry::Rect;
use crate::geometry::Size;
use crate::raster::image_crop;
use crate::raster::image_height;
use crate::raster::image_pixel;
use crate::raster::image_width;
use crate::raster::is_cut_out;
use crate::raster::pixel_at;
use crate::raster::pixel_dimensions;
use crate::scan::column_matches;
use crate::scan::first_of;
use crate::scan::lemma_scan_after_first;
use crate::scan::in_scan;
use crate::scan::scan_matches;
use crate::screen::is_rect_visible;
use crate::screen::screen_rect;
use image::DynamicImage;
use vstd::prelude::*;

verus! {

/// Why a bitmap could not be made.
#[derive(Clone, Copy, Debug, PartialEq, Eq, Structural)]
pub enum BitmapError {
    /// The requested rectangle does not lie within the source.
    Dimension,
    /// The source had no pixel data to give.
    InsufficientData,
}

/// A pixel buffer, the size it is addressed by, and its scale.
///
/// The size is in points and the buffer in pixels: the buffer is as wide
/// and as high as the size times the scale, rounded. Points handed to a
/// bitmap are divided by the scale and rounded to find the pixel they stand
/// for.
#[derive(Debug)]
pub struct Bitmap {
    pub image: DynamicImage,
    pub size: Size,
    pub scale: Ratio,
}

impl Clone for Bitmap {
    /// A bitmap of the same size and scale over a copy of the pixel buffer.
    fn clone(&self) -> (copy: Bitmap)
        ensures
            copy.size == self.size,
            copy.scale == self.scale,
            copy.pixel_width() == self.pixel_width(),
            copy.pixel_height() == self.pixel_height(),
            forall|x: int, y: int|
                0 <= x < self.pixel_width() && 0 <= y < self.pixel_height() ==> #[trigger] copy.pixel(
                    x,
                    y,
                ) == self.pixel(x, y),
    {
        Bitmap { image: self.image.clone(), size: self.size, scale: self.scale }
    }
}

/// What a search looks for: a color, or a smaller bitmap.
#[derive(Debug)]
pub enum Needle<'a> {
    Color(Color),
    Bitmap(&'a Bitmap),
}

/// What an exhaustive search keeps of the matches it meets: the points, or
/// only how many there were.
#[derive(Debug)]
pub enum Matches {
    Points(Vec<Point>),
    Count(u64),
}

impl Matches {
    /// How many matches have been recorded.
    pub open spec fn spec_len(&self) -> nat {
        match self {
            Matches::Points(points) => points@.len(),
            Matches::Count(count) => *count as nat,
        }
    }

    /// `self` is `before` with the points of `more` recorded after it, in
    /// their order.
    pub open spec fn is_extended_by(&self, before: Matches, more: Seq<Point>) -> bool {
        match (before, *self) {
            (Matches::Points(old_points), Matches::Points(points)) => points@ =~= old_points@ + more,
            (Matches::Count(old_count), Matches::Count(count)) => count == old_count + more.len(),
            _ => false,
        }
    }

    /// Records one more match.
    pub fn record(&mut self, point: Point)
        requires
            old(self).spec_len() < u64::MAX,
        ensures
            final(self).is_extended_by(*old(self), seq![point]),
    {
        match self {
            Matches::Points(points) => {
                points.push(point);
            },
            Matches::Count(count) => {
                *count = *count + 1;
            },
        }
    }
}

/// The tolerance a search uses: the one given, or zero.
pub open spec fn tolerance_or_zero(tolerance: Option<Ratio>) -> Ratio {
    match tolerance {
        Some(t) => t,
        None => Ratio { numer: 0, denom: 1 },
    }
}

/// `v` cut back to the largest `u32`.
fn saturate(v: u128) -> (s: u32)
    ensures
        s == if v <= u32::MAX {
            v as int
        } else {
            u32::MAX as int
        },
{
    if v <= u32::MAX as u128 {
        v as u32
    } else {
        u32::MAX
    }
}

/// Some whole number of points, times the scale, is `pixels`.
pub open spec fn is_scaled_whole(scale: Ratio, pixels: int) -> bool {
    exists|points: int| points >= 0 && #[trigger] scale.apply(points) == pixels
}

impl Bitmap {
    /// Width of the pixel buffer.
    pub open spec fn pixel_width(&self) -> nat {
        pixel_dimensions(self.image).0
    }

    /// Height of the pixel buffer.
    pub open spec fn pixel_height(&self) -> nat {
        pixel_dimensions(self.image).1
    }

    /// The color held at column `x`, row `y` of the pixel buffer.
    pub open spec fn pixel(&self, x: int, y: int) -> Color {
        pixel_at(self.image, x, y)
    }

    /// The pixel buffer is as large as the size times the scale, rounded.
    pub open spec fn fills_size(&self) -> bool {
        &&& self.pixel_width() == self.scale.apply(self.size.width as int)
        &&& self.pixel_height() == self.scale.apply(self.size.height as int)
    }

    /// The size is the buffer's dimensions divided by the scale, rounded, and
    /// the buffer has at most `u32::MAX` columns and rows.
    pub open spec fn is_sized_by_buffer(&self) -> bool {
        &&& self.size.width == self.spec_multiplier().apply(self.pixel_width() as int)
        &&& self.size.height == self.spec_multiplier().apply(self.pixel_height() as int)
        &&& self.pixel_width() <= u32::MAX
        &&& self.pixel_height() <= u32::MAX
    }

    /// The scale is a positive fraction, and the pixel buffer, of at most
    /// `u32::MAX` columns and rows, is as large as the size times the scale,
    /// rounded.
    pub open spec fn wf(&self) -> bool {
        &&& self.scale.is_positive()
        &&& self.pixel_width() <= u32::MAX
        &&& self.pixel_height() <= u32::MAX
        &&& self.fills_size()
    }

    pub open spec fn spec_bounds(&self) -> Rect {
        Rect { origin: Point { x: 0, y: 0 }, size: self.size }
    }

    pub open spec fn spec_multiplier(&self) -> Ratio {
        self.scale.spec_inverse()
    }

    /// The pixel column (or row) that coordinate `v` stands for: `v` divided
    /// by the scale, rounded.
    pub open spec fn physical(&self, v: int) -> int {
        self.spec_multiplier().apply(v)
    }

    /// The pixel that `(x, y)` stands for lies in the buffer.
    pub open spec fn holds(&self, x: int, y: int) -> bool {
        &&& 0 <= self.physical(x) < self.pixel_width()
        &&& 0 <= self.physical(y) < self.pixel_height()
    }

    /// The color of the pixel that `(x, y)` stands for.
    pub open spec fn sample(&self, x: int, y: int) -> Color {
        self.pixel(self.physical(x), self.physical(y))
    }

    pub open spec fn spec_get_pixel(&self, point: Point) -> Color {
        self.sample(point.x as int, point.y as int)
    }

    /// `self` is what cropping `source` to `rect` gives: a bitmap of the same
    /// scale whose buffer is a copy of the part of `source`'s buffer that
    /// `rect`, divided by the scale and rounded number by number, delimits,
    /// with the size that the copy has at that scale.
    pub open spec fn is_crop_of(&self, source: Bitmap, rect: Rect) -> bool {
        &&& self.scale == source.scale
        &&& self.is_sized_by_buffer()
        &&& is_cut_out(
            self.image,
            source.image,
            source.physical(rect.origin.x as int),
            source.physical(rect.origin.y as int),
            source.physical(rect.size.width as int),
            source.physical(rect.size.height as int),
        )
    }

    /// A bitmap whose size is its buffer's dimensions divided by its scale is
    /// well formed just when the buffer is a whole number of points wide and
    /// high: always at a scale of at most one; at a larger scale, when some
    /// whole number of points, times the scale, rounds to the buffer's width,
    /// and likewise for its height.
    pub proof fn lemma_sized_by_buffer(&self)
        requires
            self.scale.is_positive(),
            self.is_sized_by_buffer(),
        ensures
            self.wf() <==> is_scaled_whole(self.scale, self.pixel_width() as int)
                && is_scaled_whole(self.scale, self.pixel_height() as int),
            self.scale.at_most_one() ==> self.wf(),
    {
        let w = self.pixel_width() as int;
        let h = self.pixel_height() as int;
        if self.scale.at_most_one() {
            lemma_round_trip(w, self.scale);
            lemma_round_trip(h, self.scale);
        } else {
            if is_scaled_whole(self.scale, w) {
                let n = choose|n: int| n >= 0 && #[trigger] self.scale.apply(n) == w;
                lemma_round_trip_back(n, self.scale);
            }
            if is_scaled_whole(self.scale, h) {
                let n = choose|n: int| n >= 0 && #[trigger] self.scale.apply(n) == h;
                lemma_round_trip_back(n, self.scale);
            }
        }
        if self.wf() {
            assert(self.scale.apply(self.size.width as int) == w);
            assert(self.scale.apply(self.size.height as int) == h);
        }
    }

    /// A bitmap over `image` with the given scale, or a scale of one. Its
    /// size is the image's dimensions divided by the scale, rounded. It is
    /// well formed where the image is a whole number of points wide and high
    /// at that scale; where it is not, no size fits the image, and the bitmap
    /// is not well formed.
    pub fn new(image: DynamicImage, scale: Option<Ratio>) -> (bitmap: Bitmap)
        requires
            scale matches Some(s) ==> s.is_positive(),
        ensures
            bitmap.image == image,
            bitmap.scale == (match scale {
                Some(s) => s,
                None => Ratio { numer: 1, denom: 1 },
            }),
            bitmap.is_sized_by_buffer(),
            bitmap.wf() <==> is_scaled_whole(bitmap.scale, bitmap.pixel_width() as int)
                && is_scaled_whole(bitmap.scale, bitmap.pixel_height() as int),
            bitmap.scale.at_most_one() ==> bitmap.wf(),
    {
        let scale = match scale {
            Some(s) => s,
            None => Ratio::one(),
        };
        let multiplier = scale.inverse();
        let width: u128 = multiplier.scale(image_width(&image) as u64);
        let height: u128 = multiplier.scale(image_height(&image) as u64);
        proof {
            let w = pixel_dimensions(image).0 as int;
            let h = pixel_dimensions(image).1 as int;
            assert(0 <= w * multiplier.numer <= 0xffff_ffff * 0xffff_ffff) by (nonlinear_arith)
                requires
                    0 <= w <= 0xffff_ffff,
                    0 <= multiplier.numer <= 0xffff_ffff,
            ;
            assert(0 <= h * multiplier.numer <= 0xffff_ffff * 0xffff_ffff) by (nonlinear_arith)
                requires
                    0 <= h <= 0xffff_ffff,
                    0 <= multiplier.numer <= 0xffff_ffff,
            ;
            lemma_quotient_at_most_dividend(w * multiplier.numer, multiplier.denom as int);
            lemma_quotient_at_most_dividend(h * multiplier.numer, multiplier.denom as int);
        }
        let bitmap = Bitmap { image, size: Size::new(width as u64, height as u64), scale };
        proof {
            bitmap.lemma_sized_by_buffer();
        }
        bitmap
    }

    /// The rectangle of all points of the bitmap: origin zero, and its size.
    pub fn bounds(&self) -> (bounds: Rect)
        ensures
            bounds == self.spec_bounds(),
    {
        Rect::new(Point::zero(), self.size)
    }

    /// What a coordinate is multiplied by to find its pixel: one over the
    /// scale.
    pub fn multiplier(&self) -> (m: Ratio)
        ensures
            m == self.spec_multiplier(),
    {
        self.scale.inverse()
    }

    /// A new bitmap holding a copy of the part of this one that `rect`
    /// delimits, with the same scale; or an error if `rect` does not lie
    /// within the bounds. This bitmap is left as it was.
    ///
    /// The new bitmap is well formed where the copy is a whole number of
    /// points wide and high at that scale, as it always is at a scale of at
    /// most one.
    pub fn cropped(&mut self, rect: Rect) -> (result: Result<Bitmap, BitmapError>)
        requires
            old(self).scale.is_positive(),
            old(self).is_sized_by_buffer(),
        ensures
            *final(self) == *old(self),
            result is Ok <==> old(self).spec_bounds().spec_is_rect_visible(rect),
            result matches Err(e) ==> e == BitmapError::Dimension,
            result matches Ok(b) ==> b.is_crop_of(*old(self), rect),
            result matches Ok(b) ==> (b.wf() <==> is_scaled_whole(b.scale, b.pixel_width() as int)
                && is_scaled_whole(b.scale, b.pixel_height() as int)),
    {
        if !self.bounds().is_rect_visible(rect) {
            Err(BitmapError::Dimension)
        } else {
            let m = self.multiplier();
            let x: u128 = m.scale(rect.origin.x as u64);
            let y: u128 = m.scale(rect.origin.y as u64);
            let w: u128 = m.scale(rect.size.width);
            let h: u128 = m.scale(rect.size.height);
            let ghost before = *self;
            let cropped_image = image_crop(
                &mut self.image,
                saturate(x),
                saturate(y),
                saturate(w),
                saturate(h),
            );
            let bitmap = Bitmap::new(cropped_image, Some(self.scale));
            assert(bitmap.is_crop_of(before, rect));
            Ok(bitmap)
        }
    }

    /// The color of the pixel that `point` stands for.
    pub fn get_pixel(&self, point: Point) -> (color: Color)
        requires
            self.wf(),
            self.holds(point.x as int, point.y as int),
        ensures
            color == self.spec_get_pixel(point),
    {
        let p = point.scaled(self.multiplier());
        image_pixel(&self.image, p.x as u32, p.y as u32)
    }

    /// On a well-formed bitmap, a coordinate within the size whose pixel
    /// lies in the buffer is less than the buffer's extent.
    pub proof fn lemma_held_is_small(&self, x: int, y: int)
        requires
            self.wf(),
            0 <= x < self.size.width,
            0 <= y < self.size.height,
            self.holds(x, y),
        ensures
            x < self.pixel_width() <= u32::MAX,
            y < self.pixel_height() <= u32::MAX,
    {
        if self.scale.at_least_one() {
            lemma_round_div_grows(
                self.size.width as int,
                self.scale.numer as int,
                self.scale.denom as int,
            );
            lemma_round_div_grows(
                self.size.height as int,
                self.scale.numer as int,
                self.scale.denom as int,
            );
        } else {
            lemma_round_div_grows(x, self.scale.denom as int, self.scale.numer as int);
            lemma_round_div_grows(y, self.scale.denom as int, self.scale.numer as int);
        }
    }

    /// On a well-formed bitmap with a scale of at least one, the size is no
    /// larger than the buffer.
    pub proof fn lemma_size_within_buffer(&self)
        requires
            self.wf(),
            self.scale.at_least_one(),
        ensures
            self.size.width <= self.pixel_width() <= u32::MAX,
            self.size.height <= self.pixel_height() <= u32::MAX,
    {
        lemma_round_div_grows(
            self.size.width as int,
            self.scale.numer as int,
            self.scale.denom as int,
        );
        lemma_round_div_grows(
            self.size.height as int,
            self.scale.numer as int,
            self.scale.denom as int,
        );
    }

    /// On a well-formed bitmap with a scale of at least one, the size is no
    /// larger than the buffer, and every point of the bounds stands for a
    /// pixel of the buffer.
    pub proof fn lemma_holds_within_bounds(&self, point: Point)
        requires
            self.wf(),
            self.scale.at_least_one(),
            self.spec_bounds().spec_is_point_visible(point),
        ensures
            self.size.width <= self.pixel_width(),
            self.size.height <= self.pixel_height(),
            self.holds(point.x as int, point.y as int),
            0 <= self.physical(point.x as int) <= point.x,
            0 <= self.physical(point.y as int) <= point.y,
    {
        lemma_round_div_grows(
            self.size.width as int,
            self.scale.numer as int,
            self.scale.denom as int,
        );
        lemma_round_div_grows(
            self.size.height as int,
            self.scale.numer as int,
            self.scale.denom as int,
        );
        lemma_round_div_shrinks(point.x as int, self.scale.denom as int, self.scale.numer as int);
        lemma_round_div_shrinks(point.y as int, self.scale.denom as int, self.scale.numer as int);
    }
}

impl Bitmap {
    /// `needle` is both wider and taller than this bitmap.
    pub open spec fn spec_is_needle_oversized(&self, needle: Bitmap) -> bool {
        needle.size.width > self.size.width && needle.size.height > self.size.height
    }

    /// With `needle` laid over this bitmap so that its origin is at `pt`, the
    /// needle's point `(x, y)` falls on a point of this bitmap, and the two
    /// colors match.
    pub open spec fn needle_point_matches(
        &self,
        pt: Point,
        needle: Bitmap,
        tolerance: Ratio,
        x: int,
        y: int,
    ) -> bool {
        &&& 0 <= pt.x + x < self.size.width
        &&& 0 <= pt.y + y < self.size.height
        &&& spec_colors_match(needle.sample(x, y), self.sample(pt.x + x, pt.y + y), tolerance)
    }

    /// Every point of `needle` matches when its origin is laid at `pt`.
    pub open spec fn spec_is_needle_at(&self, pt: Point, needle: Bitmap, tolerance: Ratio) -> bool {
        forall|x: int, y: int|
            0 <= x < needle.size.width && 0 <= y < needle.size.height
                ==> #[trigger] self.needle_point_matches(pt, needle, tolerance, x, y)
    }

    /// With `needle` laid over this bitmap so that its origin is at `pt`, the
    /// needle's point `(x, y)` stands for a pixel of the needle's buffer,
    /// and, where it falls on a point of this bitmap, that point stands for a
    /// pixel of this bitmap's buffer.
    pub open spec fn needle_point_is_held(&self, pt: Point, needle: Bitmap, x: int, y: int) -> bool {
        &&& needle.holds(x, y)
        &&& 0 <= pt.x + x < self.size.width && 0 <= pt.y + y < self.size.height ==> self.holds(
            pt.x + x,
            pt.y + y,
        )
    }

    /// Laying `needle` at `pt` reads no pixel outside either buffer.
    pub open spec fn can_lay(&self, pt: Point, needle: Bitmap) -> bool {
        forall|x: int, y: int|
            0 <= x < needle.size.width && 0 <= y < needle.size.height
                ==> #[trigger] self.needle_point_is_held(pt, needle, x, y)
    }

    /// `needle` is found at `point`.
    pub open spec fn matches_at(&self, needle: Needle, tolerance: Ratio, point: Point) -> bool {
        match needle {
            Needle::Color(color) => spec_colors_match(color, self.spec_get_pixel(point), tolerance),
            Needle::Bitmap(bitmap) => self.spec_is_needle_at(point, *bitmap, tolerance),
        }
    }

    /// Looking for `needle` at `point` reads no pixel outside a buffer.
    pub open spec fn can_look_at(&self, needle: Needle, point: Point) -> bool {
        match needle {
            Needle::Color(_) => self.holds(point.x as int, point.y as int),
            Needle::Bitmap(bitmap) => bitmap.wf() && self.can_lay(point, *bitmap),
        }
    }

    /// The points at which `needle` is found.
    pub open spec fn hits(&self, needle: Needle, tolerance: Ratio) -> spec_fn(Point) -> bool {
        |point: Point| self.matches_at(needle, tolerance, point)
    }

    /// The rectangle that a search covers: the one given, or the bounds.
    pub open spec fn search_rect(&self, rect: Option<Rect>) -> Rect {
        match rect {
            Some(r) => r,
            None => self.spec_bounds(),
        }
    }

    /// Where a search starts: at the point given, or at the origin of the
    /// rectangle it covers.
    pub open spec fn search_start(&self, rect: Option<Rect>, start_point: Option<Point>) -> Point {
        match start_point {
            Some(p) => p,
            None => self.search_rect(rect).origin,
        }
    }

    /// The rectangle that the scan of a search runs over: the rectangle of
    /// the search, divided by the scale number by number.
    pub open spec fn scan_area(&self, rect: Option<Rect>) -> Rect {
        self.search_rect(rect).spec_scaled(self.spec_multiplier())
    }

    /// The cell at which the scan of a search starts: the start of the
    /// search, divided by the scale.
    pub open spec fn scan_start(&self, rect: Option<Rect>, start_point: Option<Point>) -> Point {
        self.search_start(rect, start_point).spec_scaled(self.spec_multiplier())
    }

    /// The scan of a search is within machine range: the rectangle and the
    /// start can be divided by the scale, and what comes of it lies within
    /// the first `u32::MAX` columns and rows, as every buffer does.
    pub open spec fn scan_fits(&self, rect: Option<Rect>, start_point: Option<Point>) -> bool {
        &&& self.search_rect(rect).origin.scaled_fits(self.spec_multiplier())
        &&& self.search_rect(rect).size.scaled_fits(self.spec_multiplier())
        &&& self.search_start(rect, start_point).scaled_fits(self.spec_multiplier())
        &&& 0 <= self.scan_start(rect, start_point).x <= u32::MAX
        &&& 0 <= self.scan_start(rect, start_point).y <= u32::MAX
        &&& 0 <= self.scan_area(rect).origin.x
        &&& 0 <= self.scan_area(rect).origin.y
        &&& self.scan_area(rect).spec_max_x() <= u32::MAX
        &&& self.scan_area(rect).spec_max_y() <= u32::MAX
    }

    /// A search of this bitmap for `needle` can be made: the bitmap is well
    /// formed, the tolerance is at most one, the rectangle lies within the
    /// bounds and the start is a point of the bounds, the scan is within
    /// machine range, and at no cell of the scan does looking for the needle
    /// read a pixel outside a buffer.
    pub open spec fn can_search(
        &self,
        needle: Needle,
        tolerance: Option<Ratio>,
        rect: Option<Rect>,
        start_point: Option<Point>,
    ) -> bool {
        &&& self.wf()
        &&& tolerance_or_zero(tolerance).at_most_one()
        &&& self.spec_bounds().spec_is_rect_visible(self.search_rect(rect))
        &&& self.spec_bounds().spec_is_point_visible(self.search_start(rect, start_point))
        &&& self.scan_fits(rect, start_point)
        &&& forall|p: Point|
            in_scan(
                p,
                self.scan_start(rect, start_point).x as int,
                self.scan_start(rect, start_point).y as int,
                self.scan_area(rect),
            ) ==> #[trigger] self.can_look_at(needle, p)
    }

    /// All points at which `needle` is found by a search of `rect` from
    /// `start_point`, in the order of the scan.
    pub open spec fn spec_matches(
        &self,
        needle: Needle,
        tolerance: Option<Ratio>,
        rect: Option<Rect>,
        start_point: Option<Point>,
    ) -> Seq<Point> {
        scan_matches(
            self.hits(needle, tolerance_or_zero(tolerance)),
            self.scan_start(rect, start_point).x as int,
            self.scan_start(rect, start_point).y as int,
            self.scan_area(rect),
        )
    }

    /// The first point at which `needle` is found by a search of `rect` from
    /// `start_point`.
    pub open spec fn spec_find(
        &self,
        needle: Needle,
        tolerance: Option<Ratio>,
        rect: Option<Rect>,
        start_point: Option<Point>,
    ) -> Option<Point> {
        first_of(self.spec_matches(needle, tolerance, rect, start_point))
    }

    /// On a well-formed bitmap with a scale of at least one, the scan of a
    /// search within the bounds stays within the bounds and within machine
    /// range.
    pub proof fn lemma_scan_stays_within_bounds(
        &self,
        rect: Option<Rect>,
        start_point: Option<Point>,
    )
        requires
            self.wf(),
            self.scale.at_least_one(),
            self.spec_bounds().spec_is_rect_visible(self.search_rect(rect)),
            self.spec_bounds().spec_is_point_visible(self.search_start(rect, start_point)),
        ensures
            self.scan_fits(rect, start_point),
            self.scan_start(rect, start_point).x < self.size.width,
            self.scan_start(rect, start_point).y < self.size.height,
            self.scan_area(rect).spec_max_x() <= self.size.width <= self.pixel_width(),
            self.scan_area(rect).spec_max_y() <= self.size.height <= self.pixel_height(),
    {
        let m = self.spec_multiplier();
        let search = self.search_rect(rect);
        let from = self.search_start(rect, start_point);
        lemma_scaled_down_fits(from, m);
        lemma_scaled_down_fits(search.origin, m);
        lemma_size_scaled_down_fits(search.size, m);
        self.lemma_holds_within_bounds(from);
    }

    /// At the usual scales every search within the bounds can be made: on a
    /// well-formed bitmap with a scale of at least one, for a color, or for a
    /// well-formed bitmap with a scale of at least one.
    pub proof fn lemma_can_search(
        &self,
        needle: Needle,
        tolerance: Option<Ratio>,
        rect: Option<Rect>,
        start_point: Option<Point>,
    )
        requires
            self.wf(),
            self.scale.at_least_one(),
            needle matches Needle::Bitmap(bitmap) ==> bitmap.wf() && bitmap.scale.at_least_one(),
            tolerance_or_zero(tolerance).at_most_one(),
            self.spec_bounds().spec_is_rect_visible(self.search_rect(rect)),
            self.spec_bounds().spec_is_point_visible(self.search_start(rect, start_point)),
        ensures
            self.can_search(needle, tolerance, rect, start_point),
    {
        self.lemma_scan_stays_within_bounds(rect, start_point);
        let start = self.scan_start(rect, start_point);
        let area = self.scan_area(rect);
        assert forall|p: Point|
            in_scan(p, start.x as int, start.y as int, area) implies #[trigger] self.can_look_at(
            needle,
            p,
        ) by {
            match needle {
                Needle::Color(_) => {
                    self.lemma_holds_within_bounds(p);
                },
                Needle::Bitmap(bitmap) => {
                    bitmap.lemma_size_within_buffer();
                    self.lemma_size_within_buffer();
                    assert forall|x: int, y: int|
                        0 <= x < bitmap.size.width && 0 <= y < bitmap.size.height
                            implies #[trigger] self.needle_point_is_held(p, *bitmap, x, y) by {
                        bitmap.lemma_holds_within_bounds(Point { x: x as i64, y: y as i64 });
                        if 0 <= p.x + x < self.size.width && 0 <= p.y + y < self.size.height {
                            self.lemma_holds_within_bounds(
                                Point { x: (p.x + x) as i64, y: (p.y + y) as i64 },
                            );
                        }
                    }
                },
            }
        }
    }

    /// Whether `needle` is larger than this bitmap in both width and height,
    /// so that it cannot be found in it.
    pub fn is_needle_oversized(&self, needle: &Bitmap) -> (oversized: bool)
        ensures
            oversized == self.spec_is_needle_oversized(*needle),
    {
        needle.bounds().size.width > self.bounds().size.width && needle.bounds().size.height
            > self.bounds().size.height
    }

    /// Whether `needle` lies in this bitmap with its origin at `pt`: each of
    /// its points falls on a point of this bitmap of a matching color.
    pub fn is_needle_at(&self, pt: Point, needle: &Bitmap, tolerance: Option<Ratio>) -> (at: bool)
        requires
            self.wf(),
            needle.wf(),
            self.can_lay(pt, *needle),
            tolerance_or_zero(tolerance).at_most_one(),
        ensures
            at == self.spec_is_needle_at(pt, *needle, tolerance_or_zero(tolerance)),
    {
        let tol = match tolerance {
            Some(t) => t,
            None => Ratio::zero(),
        };
        let bounds = needle.bounds();
        let width: u64 = bounds.size.width;
        let height: u64 = bounds.size.height;
        let mut x: u64 = 0;
        while x < width
            invariant
                self.wf(),
                needle.wf(),
                self.can_lay(pt, *needle),
                tol == tolerance_or_zero(tolerance),
                tol.at_most_one(),
                width == needle.size.width,
                height == needle.size.height,
                x <= width,
                forall|i: int, j: int|
                    0 <= i < x && 0 <= j < height ==> #[trigger] self.needle_point_matches(
                        pt,
                        *needle,
                        tol,
                        i,
                        j,
                    ),
            decreases width - x,
        {
            let mut y: u64 = 0;
            while y < height
                invariant
                    self.wf(),
                    needle.wf(),
                    self.can_lay(pt, *needle),
                    tol == tolerance_or_zero(tolerance),
                    tol.at_most_one(),
                    width == needle.size.width,
                    height == needle.size.height,
                    x < width,
                    y <= height,
                    forall|j: int|
                        0 <= j < y ==> #[trigger] self.needle_point_matches(
                            pt,
                            *needle,
                            tol,
                            x as int,
                            j,
                        ),
                decreases height - y,
            {
                proof {
                    assert(self.needle_point_is_held(pt, *needle, x as int, y as int));
                    needle.lemma_held_is_small(x as int, y as int);
                }
                let needle_point = Point::new(x as i64, y as i64);
                let hx: i128 = pt.x as i128 + x as i128;
                let hy: i128 = pt.y as i128 + y as i128;
                if hx < 0 || hx >= self.size.width as i128 || hy < 0 || hy >= self.size.height
                    as i128 {
                    assert(!self.needle_point_matches(pt, *needle, tol, x as int, y as int));
                    return false;
                }
                proof {
                    self.lemma_held_is_small(hx as int, hy as int);
                }
                let haystack_point = Point::new(hx as i64, hy as i64);
                let c1 = needle.get_pixel(needle_point);
                let c2 = self.get_pixel(haystack_point);
                if !colors_match(c1, c2, tol) {
                    assert(!self.needle_point_matches(pt, *needle, tol, x as int, y as int));
                    return false;
                }
                y = y + 1;
            }
            x = x + 1;
        }
        true
    }
}

impl Bitmap {
    /// Whether `needle` is found at `point`.
    fn is_match(&self, point: Point, needle: &Needle, tolerance: Ratio) -> (matched: bool)
        requires
            self.wf(),
            tolerance.at_most_one(),
            self.can_look_at(*needle, point),
        ensures
            matched == self.matches_at(*needle, tolerance, point),
    {
        match needle {
            Needle::Color(color) => colors_match(*color, self.get_pixel(point), tolerance),
            Needle::Bitmap(bitmap) => self.is_needle_at(point, bitmap, Some(tolerance)),
        }
    }

    /// The first cell at which `needle` is found by a scan of `area` that
    /// starts at `start`, or `None` if it is found at no cell of the scan.
    ///
    /// The scan goes column by column, left to right: down the start's
    /// column from the start's row to the bottom edge of `area`, then down
    /// every column to the right of it, as far as the right edge of `area`,
    /// from its top edge to its bottom edge.
    pub fn scan(&self, area: Rect, start: Point, needle: &Needle, tolerance: Ratio) -> (found:
        Option<Point>)
        requires
            self.wf(),
            tolerance.at_most_one(),
            area.spec_max_x() <= i64::MAX,
            area.spec_max_y() <= i64::MAX,
            forall|p: Point|
                in_scan(p, start.x as int, start.y as int, area) ==> #[trigger] self.can_look_at(
                    *needle,
                    p,
                ),
        ensures
            found == first_of(
                scan_matches(self.hits(*needle, tolerance), start.x as int, start.y as int, area),
            ),
    {
        let max_x: i128 = area.max_x();
        let max_y: i128 = area.max_y();
        let ghost hit = self.hits(*needle, tolerance);
        let ghost all = scan_matches(hit, start.x as int, start.y as int, area);
        let mut y_from: i128 = start.y as i128;
        let mut x: i128 = start.x as i128;
        while x < max_x
            invariant
                self.wf(),
                tolerance.at_most_one(),
                hit == self.hits(*needle, tolerance),
                max_x == area.spec_max_x(),
                max_y == area.spec_max_y(),
                max_x <= i64::MAX,
                max_y <= i64::MAX,
                start.x <= x,
                x == start.x ==> y_from == start.y,
                x != start.x ==> y_from == area.origin.y,
                forall|p: Point|
                    in_scan(p, start.x as int, start.y as int, area)
                        ==> #[trigger] self.can_look_at(*needle, p),
                all == scan_matches(hit, start.x as int, start.y as int, area),
                all == scan_matches(hit, x as int, y_from as int, area),
            decreases max_x - x,
        {
            let mut y: i128 = y_from;
            while y < max_y
                invariant
                    self.wf(),
                    tolerance.at_most_one(),
                    hit == self.hits(*needle, tolerance),
                    max_x == area.spec_max_x(),
                    max_y == area.spec_max_y(),
                    max_x <= i64::MAX,
                    max_y <= i64::MAX,
                    start.x <= x < max_x,
                    x == start.x ==> y_from == start.y,
                    x != start.x ==> y_from == area.origin.y,
                    y_from <= y,
                    i64::MIN <= y_from,
                    forall|p: Point|
                        in_scan(p, start.x as int, start.y as int, area)
                            ==> #[trigger] self.can_look_at(*needle, p),
                    all == scan_matches(hit, start.x as int, start.y as int, area),
                    all == column_matches(hit, x as int, y as int, max_y as int) + scan_matches(
                        hit,
                        x + 1,
                        area.origin.y as int,
                        area,
                    ),
                decreases max_y - y,
            {
                let point = Point::new(x as i64, y as i64);
                assert(in_scan(point, start.x as int, start.y as int, area));
                if self.is_match(point, needle, tolerance) {
                    assert(hit(point));
                    assert(all[0] == point);
                    return Some(point);
                }
                assert(!hit(point));
                y = y + 1;
            }
            y_from = area.origin.y as i128;
            x = x + 1;
            assert(all =~= scan_matches(hit, x as int, y_from as int, area));
        }
        None
    }

    /// The first point at which `needle` is found, or `None` if it is found
    /// nowhere.
    ///
    /// The search covers `rect` (the bounds if `None`) from `start_point` (the
    /// origin of the rectangle if `None`): both are divided by the scale, and
    /// what comes of it is scanned.
    pub fn find(
        &self,
        rect: Option<Rect>,
        start_point: Option<Point>,
        needle: &Needle,
        tolerance: Option<Ratio>,
    ) -> (found: Option<Point>)
        requires
            self.can_search(*needle, tolerance, rect, start_point),
        ensures
            found == self.spec_find(*needle, tolerance, rect, start_point),
    {
        let tol = match tolerance {
            Some(t) => t,
            None => Ratio::zero(),
        };
        let search = match rect {
            Some(r) => r,
            None => self.bounds(),
        };
        let from = match start_point {
            Some(p) => p,
            None => search.origin,
        };
        let m = self.multiplier();
        let start = from.scaled(m);
        let area = search.scaled(m);
        self.scan(area, start, needle, tol)
    }

    /// Records in `matched` every point at which `needle` is found, in the
    /// order of the scan.
    ///
    /// The rectangle and the start are divided by the scale once. The scan
    /// is then taken up again from the cell after each match, so that no cell
    /// is visited twice and matches that overlap are all met.
    pub fn find_all(
        &self,
        rect: Option<Rect>,
        start_point: Option<Point>,
        needle: &Needle,
        tolerance: Option<Ratio>,
        matched: &mut Matches,
    )
        requires
            self.can_search(*needle, tolerance, rect, start_point),
            old(matched).spec_len() <= u32::MAX,
        ensures
            final(matched).is_extended_by(
                *old(matched),
                self.spec_matches(*needle, tolerance, rect, start_point),
            ),
    {
        let tol = match tolerance {
            Some(t) => t,
            None => Ratio::zero(),
        };
        let search = match rect {
            Some(r) => r,
            None => self.bounds(),
        };
        let from = match start_point {
            Some(p) => p,
            None => search.origin,
        };
        let m = self.multiplier();
        let start = from.scaled(m);
        let area = search.scaled(m);
        let mut cursor = start;
        let ghost hit = self.hits(*needle, tol);
        let ghost all = self.spec_matches(*needle, tolerance, rect, start_point);
        let ghost mut found = Seq::<Point>::empty();
        loop
            invariant_except_break
                all =~= found + scan_matches(hit, cursor.x as int, cursor.y as int, area),
                found.len() <= cursor.x * 0x1_0000_0000 + cursor.y,
                0 <= cursor.x,
                0 <= cursor.y <= u32::MAX,
                forall|p: Point|
                    in_scan(p, cursor.x as int, cursor.y as int, area) ==> in_scan(
                        p,
                        start.x as int,
                        start.y as int,
                        area,
                    ),
            invariant
                self.wf(),
                tol.at_most_one(),
                hit == self.hits(*needle, tol),
                0 <= start.x,
                0 <= start.y,
                0 <= area.origin.y,
                area.spec_max_x() <= u32::MAX,
                area.spec_max_y() <= u32::MAX,
                forall|p: Point|
                    in_scan(p, start.x as int, start.y as int, area) ==> #[trigger] self.can_look_at(
                        *needle,
                        p,
                    ),
                old(matched).spec_len() <= u32::MAX,
                matched.is_extended_by(*old(matched), found),
            ensures
                all =~= found,
            decreases area.spec_max_x() - cursor.x, area.spec_max_y() - cursor.y,
        {
            match self.scan(area, cursor, needle, tol) {
                Some(point) => {
                    proof {
                        lemma_scan_after_first(hit, cursor.x as int, cursor.y as int, area);
                    }
                    matched.record(point);
                    proof {
                        found = found.push(point);
                    }
                    match area.iter_point(point) {
                        Some(next) => {
                            cursor = next;
                        },
                        None => {
                            proof {
                                let below = column_matches(
                                    hit,
                                    point.x as int,
                                    point.y + 1,
                                    area.spec_max_y(),
                                );
                                let right = scan_matches(
                                    hit,
                                    point.x + 1,
                                    area.origin.y as int,
                                    area,
                                );
                                assert(below.len() == 0);
                                assert(right.len() == 0);
                                assert(scan_matches(hit, point.x as int, point.y + 1, area)
                                    =~= below + right);
                            }
                            break ;
                        },
                    }
                },
                None => {
                    break ;
                },
            }
        }
    }
}

impl Bitmap {
    /// What a search for a bitmap needs: the needle is larger than this
    /// bitmap in both width and height, in which case nothing is scanned, or
    /// a search for it can be made.
    pub open spec fn can_find_bitmap(
        &self,
        needle: Bitmap,
        tolerance: Option<Ratio>,
        rect: Option<Rect>,
        start_point: Option<Point>,
    ) -> bool {
        self.spec_is_needle_oversized(needle) || self.can_search(
            Needle::Bitmap(&needle),
            tolerance,
            rect,
            start_point,
        )
    }

    /// The points at which `needle` is found by a search of `rect` from
    /// `start_point`, in the order of the scan; none where the needle is
    /// larger than this bitmap in both width and height.
    pub open spec fn spec_find_every_bitmap(
        &self,
        needle: Bitmap,
        tolerance: Option<Ratio>,
        rect: Option<Rect>,
        start_point: Option<Point>,
    ) -> Seq<Point> {
        if self.spec_is_needle_oversized(needle) {
            Seq::empty()
        } else {
            self.spec_matches(Needle::Bitmap(&needle), tolerance, rect, start_point)
        }
    }

    /// The points whose pixel matches the color `needle`, as a search of
    /// `rect` from `start_point` meets them.
    pub open spec fn spec_find_every_color(
        &self,
        needle: Color,
        tolerance: Option<Ratio>,
        rect: Option<Rect>,
        start_point: Option<Point>,
    ) -> Seq<Point> {
        self.spec_matches(Needle::Color(needle), tolerance, rect, start_point)
    }

    /// The first point of `rect`, scanning from `start_point`, whose pixel
    /// matches the color `needle` within `tolerance`, or `None` if there is
    /// none. `rect` defaults to the bounds, `start_point` to the origin of
    /// `rect`, and `tolerance` to zero.
    pub fn find_color(
        &self,
        needle: Color,
        tolerance: Option<Ratio>,
        rect: Option<Rect>,
        start_point: Option<Point>,
    ) -> (found: Option<Point>)
        requires
            self.can_search(Needle::Color(needle), tolerance, rect, start_point),
        ensures
            found == first_of(self.spec_find_every_color(needle, tolerance, rect, start_point)),
    {
        self.find(rect, start_point, &Needle::Color(needle), tolerance)
    }

    /// Every point of `rect`, scanning from `start_point`, whose pixel
    /// matches the color `needle` within `tolerance`, in the order of the
    /// scan.
    pub fn find_every_color(
        &self,
        needle: Color,
        tolerance: Option<Ratio>,
        rect: Option<Rect>,
        start_point: Option<Point>,
    ) -> (points: Vec<Point>)
        requires
            self.can_search(Needle::Color(needle), tolerance, rect, start_point),
        ensures
            points@ == self.spec_find_every_color(needle, tolerance, rect, start_point),
    {
        let mut matched = Matches::Points(Vec::new());
        self.find_all(rect, start_point, &Needle::Color(needle), tolerance, &mut matched);
        match matched {
            Matches::Points(points) => points,
            Matches::Count(_) => Vec::new(),
        }
    }

    /// How many points of `rect`, scanning from `start_point`, have a pixel
    /// that matches the color `needle` within `tolerance`: the length of what
    /// `find_every_color` returns, counted without keeping the points.
    pub fn count_of_color(
        &self,
        needle: Color,
        tolerance: Option<Ratio>,
        rect: Option<Rect>,
        start_point: Option<Point>,
    ) -> (count: u64)
        requires
            self.can_search(Needle::Color(needle), tolerance, rect, start_point),
        ensures
            count == self.spec_find_every_color(needle, tolerance, rect, start_point).len(),
    {
        let mut matched = Matches::Count(0);
        self.find_all(rect, start_point, &Needle::Color(needle), tolerance, &mut matched);
        match matched {
            Matches::Points(_) => 0,
            Matches::Count(count) => count,
        }
    }

    /// The first point of `rect`, scanning from `start_point`, at which
    /// `needle` lies in this bitmap within `tolerance`, or `None` if there is
    /// none. Nothing is scanned, and `None` returned, where the needle is
    /// larger than this bitmap in both width and height.
    pub fn find_bitmap(
        &self,
        needle: &Bitmap,
        tolerance: Option<Ratio>,
        rect: Option<Rect>,
        start_point: Option<Point>,
    ) -> (found: Option<Point>)
        requires
            self.can_find_bitmap(*needle, tolerance, rect, start_point),
        ensures
            found == first_of(self.spec_find_every_bitmap(*needle, tolerance, rect, start_point)),
            self.spec_is_needle_oversized(*needle) ==> found is None,
    {
        if self.is_needle_oversized(needle) {
            return None;
        }
        self.find(rect, start_point, &Needle::Bitmap(needle), tolerance)
    }

    /// Every point of `rect`, scanning from `start_point`, at which `needle`
    /// lies in this bitmap within `tolerance`, in the order of the scan.
    /// Nothing is scanned, and nothing returned, where the needle is larger
    /// than this bitmap in both width and height.
    pub fn find_every_bitmap(
        &self,
        needle: &Bitmap,
        tolerance: Option<Ratio>,
        rect: Option<Rect>,
        start_point: Option<Point>,
    ) -> (points: Vec<Point>)
        requires
            self.can_find_bitmap(*needle, tolerance, rect, start_point),
        ensures
            points@ == self.spec_find_every_bitmap(*needle, tolerance, rect, start_point),
            self.spec_is_needle_oversized(*needle) ==> points@.len() == 0,
    {
        if self.is_needle_oversized(needle) {
            return Vec::new();
        }
        let mut matched = Matches::Points(Vec::new());
        self.find_all(rect, start_point, &Needle::Bitmap(needle), tolerance, &mut matched);
        match matched {
            Matches::Points(points) => points,
            Matches::Count(_) => Vec::new(),
        }
    }

    /// How many points of `rect`, scanning from `start_point`, `needle` lies
    /// at within `tolerance`: the length of what `find_every_bitmap` returns,
    /// counted without keeping the points.
    pub fn count_of_bitmap(
        &self,
        needle: &Bitmap,
        tolerance: Option<Ratio>,
        rect: Option<Rect>,
        start_point: Option<Point>,
    ) -> (count: u64)
        requires
            self.can_find_bitmap(*needle, tolerance, rect, start_point),
        ensures
            count == self.spec_find_every_bitmap(*needle, tolerance, rect, start_point).len(),
            self.spec_is_needle_oversized(*needle) ==> count == 0,
    {
        if self.is_needle_oversized(needle) {
            return 0;
        }
        let mut matched = Matches::Count(0);
        self.find_all(rect, start_point, &Needle::Bitmap(needle), tolerance, &mut matched);
        match matched {
            Matches::Points(_) => 0,
            Matches::Count(count) => count,
        }
    }
}

impl Bitmap {
    /// The bitmap that a capture of the screen comes to: a bitmap over the
    /// captured image with the scale of the screen, or an error if the
    /// capture gave no image.
    pub fn from_capture(image: Option<DynamicImage>, scale: Ratio) -> (result: Result<
        Bitmap,
        BitmapError,
    >)
        requires
            scale.is_positive(),
        ensures
            match image {
                Some(captured) => result matches Ok(bitmap) && bitmap.image == captured
                    && bitmap.scale == scale && bitmap.is_sized_by_buffer() && (bitmap.wf()
                    <==> is_scaled_whole(scale, bitmap.pixel_width() as int) && is_scaled_whole(
                    scale,
                    bitmap.pixel_height() as int,
                )),
                None => result matches Err(e) && e == BitmapError::InsufficientData,
            },
    {
        match image {
            Some(captured) => Ok(Bitmap::new(captured, Some(scale))),
            None => Err(BitmapError::InsufficientData),
        }
    }
}

/// The rectangle that a capture of the whole of a screen of the given size
/// takes.
pub fn capture_screen(screen: Size) -> (portion: Result<Rect, BitmapError>)
    ensures
        portion == Ok::<Rect, BitmapError>(screen_rect(screen)),
{
    capture_screen_portion(screen, Rect::new(Point::zero(), screen))
}

/// The rectangle that a capture of the portion `rect` of a screen of the
/// given size takes: `rect`, or an error if it does not lie on the screen.
pub fn capture_screen_portion(screen: Size, rect: Rect) -> (portion: Result<Rect, BitmapError>)
    ensures
        portion == if screen_rect(screen).spec_is_rect_visible(rect) {
            Ok::<Rect, BitmapError>(rect)
        } else {
            Err::<Rect, BitmapError>(BitmapError::Dimension)
        },
{
    if !is_rect_visible(screen, rect) {
        Err(BitmapError::Dimension)
    } else {
        Ok(rect)
    }
}

impl Bitmap {
    /// At a scale of one every coordinate stands for the pixel of the same
    /// number.
    pub proof fn lemma_physical_at_scale_one(&self, v: int)
        requires
            self.scale.is_one(),
        ensures
            self.physical(v) == v,
    {
        lemma_round_div_exact(v, self.scale.numer as int);
    }

    /// A well-formed bitmap with a scale of one is as large as its buffer.
    pub proof fn lemma_size_at_scale_one(&self)
        requires
            self.wf(),
            self.scale.is_one(),
        ensures
            self.size.width == self.pixel_width(),
            self.size.height == self.pixel_height(),
    {
        lemma_round_div_exact(self.size.width as int, self.scale.numer as int);
        lemma_round_div_exact(self.size.height as int, self.scale.numer as int);
    }

    /// At a scale of one the scan runs over the rectangle and from the start
    /// as they are given.
    pub proof fn lemma_scan_at_scale_one(&self, rect: Option<Rect>, start_point: Option<Point>)
        requires
            self.scale.is_one(),
        ensures
            self.scan_area(rect) == self.search_rect(rect),
            self.scan_start(rect, start_point) == self.search_start(rect, start_point),
    {
        let search = self.search_rect(rect);
        let from = self.search_start(rect, start_point);
        self.lemma_physical_at_scale_one(from.x as int);
        self.lemma_physical_at_scale_one(from.y as int);
        self.lemma_physical_at_scale_one(search.origin.x as int);
        self.lemma_physical_at_scale_one(search.origin.y as int);
        self.lemma_physical_at_scale_one(search.size.width as int);
        self.lemma_physical_at_scale_one(search.size.height as int);
    }
}

} // verus!
