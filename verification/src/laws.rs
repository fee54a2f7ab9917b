//! What holds of every search, stated over the functions that the contracts
//! of the searches use, and proved.

use crate::bitmap::tolerance_or_zero;
use crate::bitmap::Bitmap;
use crate::bitmap::Needle;
use crate::color::lemma_color_matches_itself;
use crate::color::lemma_inverse_differs;
use crate::geometry::lemma_round_div_shrinks;
use crate::geometry::Point;
use crate::geometry::Ratio;
use crate::geometry::Rect;
use crate::scan::cell;
use crate::scan::column_matches;
use crate::scan::first_of;
use crate::scan::in_scan;
use crate::scan::lemma_four_hits;
use crate::scan::lemma_scan_matches;
use crate::scan::lemma_scan_without_hits;
use crate::scan::scan_matches;
use vstd::prelude::*;

verus! {

/// The points that a search finds are the cells of its scan at which the
/// needle is found: each of them is such a cell, and no such cell is
/// missing. They come in strictly ascending order, by column and then by row,
/// so none comes twice.
pub proof fn lemma_matches_are_the_hits_in_order(
    bitmap: Bitmap,
    needle: Needle,
    tolerance: Option<Ratio>,
    rect: Option<Rect>,
    start_point: Option<Point>,
)
    requires
        bitmap.can_search(needle, tolerance, rect, start_point),
    ensures
        forall|i: int|
            0 <= i < bitmap.spec_matches(needle, tolerance, rect, start_point).len() ==> {
                let p = #[trigger] bitmap.spec_matches(needle, tolerance, rect, start_point)[i];
                &&& in_scan(
                    p,
                    bitmap.scan_start(rect, start_point).x as int,
                    bitmap.scan_start(rect, start_point).y as int,
                    bitmap.scan_area(rect),
                )
                &&& bitmap.matches_at(needle, tolerance_or_zero(tolerance), p)
            },
        forall|p: Point|
            in_scan(
                p,
                bitmap.scan_start(rect, start_point).x as int,
                bitmap.scan_start(rect, start_point).y as int,
                bitmap.scan_area(rect),
            ) && #[trigger] bitmap.matches_at(needle, tolerance_or_zero(tolerance), p)
                ==> bitmap.spec_matches(needle, tolerance, rect, start_point).contains(p),
        forall|i: int, j: int|
            0 <= i < j < bitmap.spec_matches(needle, tolerance, rect, start_point).len() ==> (
            #[trigger] bitmap.spec_matches(needle, tolerance, rect, start_point)[i]).precedes(
                #[trigger] bitmap.spec_matches(needle, tolerance, rect, start_point)[j],
            ),
{
    let hit = bitmap.hits(needle, tolerance_or_zero(tolerance));
    let start = bitmap.scan_start(rect, start_point);
    let area = bitmap.scan_area(rect);
    lemma_scan_matches(hit, start.x as int, start.y as int, area);
    let ms = bitmap.spec_matches(needle, tolerance, rect, start_point);
    assert(ms == scan_matches(hit, start.x as int, start.y as int, area));
    assert forall|p: Point|
        in_scan(p, start.x as int, start.y as int, area) && #[trigger] bitmap.matches_at(
            needle,
            tolerance_or_zero(tolerance),
            p,
        ) implies ms.contains(p) by {
        assert(hit(p));
    }
}

/// What a search returns is the first cell of its scan at which the needle
/// is found: the needle is found there, and at no cell of the scan that comes
/// before it. It returns nothing only where the needle is found at no cell
/// of the scan.
pub proof fn lemma_find_is_the_first_hit(
    bitmap: Bitmap,
    needle: Needle,
    tolerance: Option<Ratio>,
    rect: Option<Rect>,
    start_point: Option<Point>,
)
    requires
        bitmap.can_search(needle, tolerance, rect, start_point),
    ensures
        match bitmap.spec_find(needle, tolerance, rect, start_point) {
            Some(found) => {
                &&& in_scan(
                    found,
                    bitmap.scan_start(rect, start_point).x as int,
                    bitmap.scan_start(rect, start_point).y as int,
                    bitmap.scan_area(rect),
                )
                &&& bitmap.matches_at(needle, tolerance_or_zero(tolerance), found)
                &&& forall|p: Point|
                    in_scan(
                        p,
                        bitmap.scan_start(rect, start_point).x as int,
                        bitmap.scan_start(rect, start_point).y as int,
                        bitmap.scan_area(rect),
                    ) && #[trigger] bitmap.matches_at(needle, tolerance_or_zero(tolerance), p)
                        ==> !p.precedes(found)
            },
            None => forall|p: Point|
                in_scan(
                    p,
                    bitmap.scan_start(rect, start_point).x as int,
                    bitmap.scan_start(rect, start_point).y as int,
                    bitmap.scan_area(rect),
                ) ==> !#[trigger] bitmap.matches_at(needle, tolerance_or_zero(tolerance), p),
        },
{
    lemma_matches_are_the_hits_in_order(bitmap, needle, tolerance, rect, start_point);
    let ms = bitmap.spec_matches(needle, tolerance, rect, start_point);
    let start = bitmap.scan_start(rect, start_point);
    let area = bitmap.scan_area(rect);
    if ms.len() > 0 {
        let found = ms[0];
        assert forall|p: Point|
            in_scan(p, start.x as int, start.y as int, area) && #[trigger] bitmap.matches_at(
                needle,
                tolerance_or_zero(tolerance),
                p,
            ) implies !p.precedes(found) by {
            assert(ms.contains(p));
            let k = choose|k: int| 0 <= k < ms.len() && ms[k] == p;
            if k > 0 {
                assert(ms[0].precedes(ms[k]));
            }
        }
    } else {
        assert forall|p: Point| in_scan(p, start.x as int, start.y as int, area) implies !#[trigger] bitmap.matches_at(
            needle,
            tolerance_or_zero(tolerance),
            p,
        ) by {
            if bitmap.matches_at(needle, tolerance_or_zero(tolerance), p) {
                assert(ms.contains(p));
            }
        }
    }
}

/// Cropping and then searching comes back to where the crop was taken.
///
/// Let `needle` be what cropping `haystack` to `sub_rect` gives, where the
/// haystack has a scale of one and `sub_rect` lies within its bounds with
/// its origin on one of its points. Then a search for `needle` in the whole
/// of `haystack` finds it somewhere, and a search that starts at the origin
/// of `sub_rect` finds it there.
pub proof fn lemma_cropped_bitmap_is_found(
    haystack: Bitmap,
    sub_rect: Rect,
    needle: Bitmap,
    tolerance: Option<Ratio>,
)
    requires
        haystack.wf(),
        haystack.scale.is_one(),
        haystack.spec_bounds().spec_is_rect_visible(sub_rect),
        haystack.spec_bounds().spec_is_point_visible(sub_rect.origin),
        needle.is_crop_of(haystack, sub_rect),
        tolerance_or_zero(tolerance).at_most_one(),
    ensures
        haystack.can_find_bitmap(needle, tolerance, None, None),
        haystack.can_find_bitmap(needle, tolerance, None, Some(sub_rect.origin)),
        first_of(haystack.spec_find_every_bitmap(needle, tolerance, None, None)) is Some,
        first_of(
            haystack.spec_find_every_bitmap(needle, tolerance, None, Some(sub_rect.origin)),
        ) == Some(sub_rect.origin),
{
    let tol = tolerance_or_zero(tolerance);
    let origin = sub_rect.origin;
    let hit = haystack.hits(Needle::Bitmap(&needle), tol);
    let bounds = haystack.spec_bounds();
    assert forall|v: int| #[trigger] haystack.physical(v) == v by {
        haystack.lemma_physical_at_scale_one(v);
    }
    assert forall|v: int| #[trigger] needle.physical(v) == v by {
        needle.lemma_physical_at_scale_one(v);
    }
    haystack.lemma_size_at_scale_one();
    needle.lemma_sized_by_buffer();
    needle.lemma_size_at_scale_one();
    haystack.lemma_can_search(Needle::Bitmap(&needle), tolerance, None, None);
    haystack.lemma_can_search(Needle::Bitmap(&needle), tolerance, None, Some(origin));
    assert(needle.size.width == sub_rect.size.width);
    assert(needle.size.height == sub_rect.size.height);
    assert forall|x: int, y: int|
        0 <= x < needle.size.width && 0 <= y < needle.size.height
            implies #[trigger] haystack.needle_point_matches(origin, needle, tol, x, y) by {
        assert(needle.sample(x, y) == needle.pixel(x, y));
        assert(haystack.sample(origin.x + x, origin.y + y) == haystack.pixel(
            origin.x + x,
            origin.y + y,
        ));
        assert(needle.pixel(x, y) == haystack.pixel(origin.x + x, origin.y + y));
        lemma_color_matches_itself(needle.pixel(x, y), tol);
    }
    assert(haystack.spec_is_needle_at(origin, needle, tol));
    assert(hit(origin));
    haystack.lemma_scan_at_scale_one(None, None);
    haystack.lemma_scan_at_scale_one(None, Some(origin));
    // From the origin of the crop, the first cell of the scan is a match.
    let from_origin = scan_matches(hit, origin.x as int, origin.y as int, bounds);
    assert(cell(origin.x as int, origin.y as int) == origin);
    let below = column_matches(hit, origin.x as int, origin.y + 1, bounds.spec_max_y());
    assert(column_matches(hit, origin.x as int, origin.y as int, bounds.spec_max_y()) == seq![
        origin,
    ] + below);
    assert(from_origin[0] == origin);
    // From the origin of the bounds, the scan passes over that cell.
    lemma_scan_matches(hit, 0, 0, bounds);
    assert(in_scan(origin, 0, 0, bounds));
    assert(scan_matches(hit, 0, 0, bounds).contains(origin));
}

/// A bitmap with every color channel inverted is not found in the bitmap it
/// was made from.
///
/// Let `needle` be as large as `haystack`, which is not empty, and hold at
/// each pixel of its buffer the inverse of what `haystack` holds there. Then a search for
/// `needle` in the whole of `haystack` at tolerance zero finds nothing: away
/// from the origin the needle does not fit, and at the origin the first
/// pixel differs, since no channel value is its own inverse.
pub proof fn lemma_inverted_bitmap_is_not_found(
    haystack: Bitmap,
    needle: Bitmap,
    tolerance: Option<Ratio>,
)
    requires
        haystack.wf(),
        haystack.scale.at_least_one(),
        needle.wf(),
        needle.scale.at_least_one(),
        haystack.size.width > 0,
        haystack.size.height > 0,
        needle.size == haystack.size,
        forall|x: int, y: int|
            0 <= x < haystack.pixel_width() && 0 <= y < haystack.pixel_height()
                ==> #[trigger] needle.pixel(x, y) == haystack.pixel(x, y).inverted(),
        tolerance_or_zero(tolerance).is_valid(),
        tolerance_or_zero(tolerance).numer == 0,
    ensures
        haystack.can_find_bitmap(needle, tolerance, None, None),
        first_of(haystack.spec_find_every_bitmap(needle, tolerance, None, None)) is None,
{
    let tol = tolerance_or_zero(tolerance);
    let hit = haystack.hits(Needle::Bitmap(&needle), tol);
    let start = haystack.scan_start(None, None);
    let area = haystack.scan_area(None);
    haystack.lemma_scan_stays_within_bounds(None, None);
    haystack.lemma_can_search(Needle::Bitmap(&needle), tolerance, None, None);
    assert(haystack.physical(0) == 0 && needle.physical(0) == 0) by {
        lemma_round_div_shrinks(0, haystack.scale.denom as int, haystack.scale.numer as int);
        lemma_round_div_shrinks(0, needle.scale.denom as int, needle.scale.numer as int);
    }
    assert forall|p: Point| in_scan(p, start.x as int, start.y as int, area) implies !#[trigger] hit(
        p,
    ) by {
        if p.x == 0 && p.y == 0 {
            assert(needle.pixel(0, 0) == haystack.pixel(0, 0).inverted());
            lemma_inverse_differs(haystack.pixel(0, 0), tol);
            assert(!haystack.needle_point_matches(p, needle, tol, 0, 0));
        } else {
            assert(!haystack.needle_point_matches(
                p,
                needle,
                tol,
                needle.size.width - 1,
                needle.size.height - 1,
            ));
        }
    }
    lemma_scan_without_hits(hit, start.x as int, start.y as int, area);
}

/// `tile` is found in `haystack` with its origin at `(x, y)`: each pixel of
/// the tile is the pixel of the haystack that far from `(x, y)`.
pub open spec fn is_copy_at(haystack: Bitmap, tile: Bitmap, x: int, y: int) -> bool {
    forall|i: int, j: int|
        0 <= i < tile.size.width && 0 <= j < tile.size.height ==> #[trigger] tile.pixel(i, j)
            == haystack.pixel(x + i, y + j)
}

/// A bitmap tiled two by two is counted at least four times.
///
/// Let `haystack` be one pixel wider and taller than two by two copies of
/// `tile`, which is not empty, and hold the four copies side by side from
/// its origin; both have a scale of one. Then an exhaustive search of the
/// whole of `haystack` for `tile` finds at least four matches.
pub proof fn lemma_tiled_bitmap_is_counted(haystack: Bitmap, tile: Bitmap, tolerance: Option<Ratio>)
    requires
        haystack.wf(),
        haystack.scale.is_one(),
        tile.wf(),
        tile.scale.is_one(),
        tile.size.width > 0,
        tile.size.height > 0,
        haystack.size.width == 2 * tile.size.width + 1,
        haystack.size.height == 2 * tile.size.height + 1,
        is_copy_at(haystack, tile, 0, 0),
        is_copy_at(haystack, tile, 0, tile.size.height as int),
        is_copy_at(haystack, tile, tile.size.width as int, 0),
        is_copy_at(haystack, tile, tile.size.width as int, tile.size.height as int),
        tolerance_or_zero(tolerance).at_most_one(),
    ensures
        haystack.can_find_bitmap(tile, tolerance, None, None),
        haystack.spec_find_every_bitmap(tile, tolerance, None, None).len() >= 4,
{
    let tol = tolerance_or_zero(tolerance);
    let hit = haystack.hits(Needle::Bitmap(&tile), tol);
    let bounds = haystack.spec_bounds();
    let w = tile.size.width as int;
    let h = tile.size.height as int;
    assert forall|v: int| #[trigger] haystack.physical(v) == v by {
        haystack.lemma_physical_at_scale_one(v);
    }
    assert forall|v: int| #[trigger] tile.physical(v) == v by {
        tile.lemma_physical_at_scale_one(v);
    }
    assert forall|x: int, y: int|
        (x == 0 || x == w) && (y == 0 || y == h) implies #[trigger] hit(cell(x, y)) by {
        let p = cell(x, y);
        assert(is_copy_at(haystack, tile, x, y));
        assert forall|i: int, j: int| 0 <= i < w && 0 <= j < h implies #[trigger] haystack.needle_point_matches(
            p,
            tile,
            tol,
            i,
            j,
        ) by {
            assert(tile.sample(i, j) == tile.pixel(i, j));
            assert(haystack.sample(x + i, y + j) == haystack.pixel(x + i, y + j));
            lemma_color_matches_itself(tile.pixel(i, j), tol);
        }
        assert(haystack.spec_is_needle_at(p, tile, tol));
    }
    haystack.lemma_scan_at_scale_one(None, None);
    haystack.lemma_can_search(Needle::Bitmap(&tile), tolerance, None, None);
    assert(hit(cell(0, 0)));
    assert(hit(cell(0, h)));
    assert(hit(cell(w, 0)));
    assert(hit(cell(w, h)));
    lemma_four_hits(hit, 0, 0, bounds, cell(0, 0), cell(0, h), cell(w, 0), cell(w, h));
}

} // verus!
