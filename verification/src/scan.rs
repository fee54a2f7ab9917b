//! The order in which a search visits the cells of a rectangle, and the
//! matches it meets on the way.
//!
//! A scan goes column by column, left to right, and down each column. It may
//! start part-way down its first column; every later column is visited from
//! the rectangle's top edge.

use crate::geometry::Point;
use crate::geometry::Rect;
use vstd::prelude::*;

verus! {

/// The point at column `x`, row `y`.
pub open spec fn cell(x: int, y: int) -> Point {
    Point { x: x as i64, y: y as i64 }
}

/// `p` is one of the cells that a scan of `area` visits when it starts in
/// column `x` at row `y_from`.
pub open spec fn in_scan(p: Point, x: int, y_from: int, area: Rect) -> bool {
    &&& x <= p.x < area.spec_max_x()
    &&& p.y < area.spec_max_y()
    &&& if p.x == x {
        y_from <= p.y
    } else {
        area.origin.y <= p.y
    }
}

/// The cells of column `x` from row `y_from` down to, but not including, row
/// `y_to` for which `hit` holds, top to bottom.
pub open spec fn column_matches(hit: spec_fn(Point) -> bool, x: int, y_from: int, y_to: int) -> Seq<
    Point,
>
    decreases y_to - y_from,
{
    if y_from >= y_to {
        Seq::empty()
    } else if hit(cell(x, y_from)) {
        seq![cell(x, y_from)] + column_matches(hit, x, y_from + 1, y_to)
    } else {
        column_matches(hit, x, y_from + 1, y_to)
    }
}

/// The cells for which `hit` holds among those that a scan of `area` visits
/// when it starts in column `x` at row `y_from`, in the order of the scan.
pub open spec fn scan_matches(hit: spec_fn(Point) -> bool, x: int, y_from: int, area: Rect) -> Seq<
    Point,
>
    decreases area.spec_max_x() - x,
{
    if x >= area.spec_max_x() {
        Seq::empty()
    } else {
        column_matches(hit, x, y_from, area.spec_max_y()) + scan_matches(
            hit,
            x + 1,
            area.origin.y as int,
            area,
        )
    }
}

/// The first of a sequence of points, if there is one.
pub open spec fn first_of(points: Seq<Point>) -> Option<Point> {
    if points.len() == 0 {
        None
    } else {
        Some(points[0])
    }
}

/// Every cell of the scan has coordinates within machine range.
pub open spec fn scan_in_range(x: int, y_from: int, area: Rect) -> bool {
    &&& i64::MIN <= x
    &&& i64::MIN <= y_from
    &&& area.spec_max_x() <= i64::MAX + 1
    &&& area.spec_max_y() <= i64::MAX + 1
}

/// The matches of a column are cells of that column for which `hit` holds,
/// they come top to bottom, and no such cell is missing.
pub proof fn lemma_column_matches(hit: spec_fn(Point) -> bool, x: int, y_from: int, y_to: int)
    requires
        i64::MIN <= x <= i64::MAX,
        i64::MIN <= y_from,
        y_to <= i64::MAX + 1,
    ensures
        forall|i: int|
            0 <= i < column_matches(hit, x, y_from, y_to).len() ==> {
                let p = #[trigger] column_matches(hit, x, y_from, y_to)[i];
                p.x == x && y_from <= p.y < y_to && hit(p)
            },
        forall|i: int, j: int|
            0 <= i < j < column_matches(hit, x, y_from, y_to).len() ==> (#[trigger] column_matches(
                hit,
                x,
                y_from,
                y_to,
            )[i]).y < (#[trigger] column_matches(hit, x, y_from, y_to)[j]).y,
        forall|p: Point|
            p.x == x && y_from <= p.y < y_to && #[trigger] hit(p) ==> column_matches(
                hit,
                x,
                y_from,
                y_to,
            ).contains(p),
    decreases y_to - y_from,
{
    let ms = column_matches(hit, x, y_from, y_to);
    if y_from < y_to {
        let rest = column_matches(hit, x, y_from + 1, y_to);
        lemma_column_matches(hit, x, y_from + 1, y_to);
        let c = cell(x, y_from);
        if hit(c) {
            assert(ms == seq![c] + rest);
            assert forall|i: int| 0 <= i < ms.len() implies {
                let p = #[trigger] ms[i];
                p.x == x && y_from <= p.y < y_to && hit(p)
            } by {
                if i > 0 {
                    assert(ms[i] == rest[i - 1]);
                }
            }
            assert forall|i: int, j: int| 0 <= i < j < ms.len() implies (#[trigger] ms[i]).y < (
            #[trigger] ms[j]).y by {
                assert(ms[j] == rest[j - 1]);
                if i > 0 {
                    assert(ms[i] == rest[i - 1]);
                }
            }
            assert forall|p: Point|
                p.x == x && y_from <= p.y < y_to && #[trigger] hit(p) implies ms.contains(p) by {
                if p.y == y_from {
                    assert(ms[0] == p);
                } else {
                    assert(rest.contains(p));
                    let k = choose|k: int| 0 <= k < rest.len() && rest[k] == p;
                    assert(ms[k + 1] == p);
                }
            }
        } else {
            assert(ms == rest);
            assert forall|p: Point|
                p.x == x && y_from <= p.y < y_to && #[trigger] hit(p) implies ms.contains(p) by {
                if p.y == y_from {
                    assert(p == c);
                }
            }
        }
    }
}

/// The matches of a scan are cells of the scan for which `hit` holds, each
/// comes before the next in scan order, and no such cell is missing.
pub proof fn lemma_scan_matches(hit: spec_fn(Point) -> bool, x: int, y_from: int, area: Rect)
    requires
        scan_in_range(x, y_from, area),
    ensures
        forall|i: int|
            0 <= i < scan_matches(hit, x, y_from, area).len() ==> {
                let p = #[trigger] scan_matches(hit, x, y_from, area)[i];
                in_scan(p, x, y_from, area) && hit(p)
            },
        forall|i: int, j: int|
            0 <= i < j < scan_matches(hit, x, y_from, area).len() ==> (#[trigger] scan_matches(
                hit,
                x,
                y_from,
                area,
            )[i]).precedes(#[trigger] scan_matches(hit, x, y_from, area)[j]),
        forall|p: Point|
            in_scan(p, x, y_from, area) && #[trigger] hit(p) ==> scan_matches(
                hit,
                x,
                y_from,
                area,
            ).contains(p),
    decreases area.spec_max_x() - x,
{
    let ms = scan_matches(hit, x, y_from, area);
    if x < area.spec_max_x() {
        let column = column_matches(hit, x, y_from, area.spec_max_y());
        let rest = scan_matches(hit, x + 1, area.origin.y as int, area);
        lemma_column_matches(hit, x, y_from, area.spec_max_y());
        lemma_scan_matches(hit, x + 1, area.origin.y as int, area);
        assert(ms == column + rest);
        let n = column.len() as int;
        assert forall|i: int| 0 <= i < ms.len() implies {
            let p = #[trigger] ms[i];
            in_scan(p, x, y_from, area) && hit(p)
        } by {
            if i < n {
                assert(ms[i] == column[i]);
            } else {
                assert(ms[i] == rest[i - n]);
            }
        }
        assert forall|i: int, j: int| 0 <= i < j < ms.len() implies (#[trigger] ms[i]).precedes(
            #[trigger] ms[j],
        ) by {
            if j < n {
                assert(ms[i] == column[i]);
                assert(ms[j] == column[j]);
            } else if i < n {
                assert(ms[i] == column[i]);
                assert(ms[j] == rest[j - n]);
            } else {
                assert(ms[i] == rest[i - n]);
                assert(ms[j] == rest[j - n]);
            }
        }
        assert forall|p: Point| in_scan(p, x, y_from, area) && #[trigger] hit(p) implies ms.contains(
            p,
        ) by {
            if p.x == x {
                assert(column.contains(p));
                let k = choose|k: int| 0 <= k < column.len() && column[k] == p;
                assert(ms[k] == p);
            } else {
                assert(in_scan(p, x + 1, area.origin.y as int, area));
                assert(rest.contains(p));
                let k = choose|k: int| 0 <= k < rest.len() && rest[k] == p;
                assert(ms[n + k] == p);
            }
        }
    }
}

/// A scan in which no cell is a hit has no matches.
pub proof fn lemma_scan_without_hits(hit: spec_fn(Point) -> bool, x: int, y_from: int, area: Rect)
    requires
        scan_in_range(x, y_from, area),
        forall|p: Point| in_scan(p, x, y_from, area) ==> !#[trigger] hit(p),
    ensures
        scan_matches(hit, x, y_from, area).len() == 0,
{
    lemma_scan_matches(hit, x, y_from, area);
    let ms = scan_matches(hit, x, y_from, area);
    if ms.len() > 0 {
        assert(hit(ms[0]));
    }
}

/// Points that each come before the next are all different, so a scan with
/// `n` hits at cells in ascending scan order has at least `n` matches; here
/// for four.
pub proof fn lemma_four_hits(
    hit: spec_fn(Point) -> bool,
    x: int,
    y_from: int,
    area: Rect,
    a: Point,
    b: Point,
    c: Point,
    d: Point,
)
    requires
        scan_in_range(x, y_from, area),
        in_scan(a, x, y_from, area) && hit(a),
        in_scan(b, x, y_from, area) && hit(b),
        in_scan(c, x, y_from, area) && hit(c),
        in_scan(d, x, y_from, area) && hit(d),
        a.precedes(b),
        b.precedes(c),
        c.precedes(d),
    ensures
        scan_matches(hit, x, y_from, area).len() >= 4,
{
    lemma_scan_matches(hit, x, y_from, area);
    let ms = scan_matches(hit, x, y_from, area);
    assert(ms.contains(a));
    assert(ms.contains(b));
    assert(ms.contains(c));
    assert(ms.contains(d));
    let ia = choose|k: int| 0 <= k < ms.len() && ms[k] == a;
    let ib = choose|k: int| 0 <= k < ms.len() && ms[k] == b;
    let ic = choose|k: int| 0 <= k < ms.len() && ms[k] == c;
    let id = choose|k: int| 0 <= k < ms.len() && ms[k] == d;
    if ib <= ia {
        if ib < ia {
            assert(ms[ib].precedes(ms[ia]));
        }
    }
    if ic <= ib {
        if ic < ib {
            assert(ms[ic].precedes(ms[ib]));
        }
    }
    if id <= ic {
        if id < ic {
            assert(ms[id].precedes(ms[ic]));
        }
    }
    assert(ia < ib < ic < id);
}

/// A column with matches is its first match followed by the matches below
/// it.
pub proof fn lemma_column_after_first(hit: spec_fn(Point) -> bool, x: int, y_from: int, y_to: int)
    requires
        i64::MIN <= x <= i64::MAX,
        i64::MIN <= y_from,
        y_to <= i64::MAX + 1,
        column_matches(hit, x, y_from, y_to).len() > 0,
    ensures
        ({
            let ms = column_matches(hit, x, y_from, y_to);
            &&& ms[0].x == x
            &&& y_from <= ms[0].y < y_to
            &&& hit(ms[0])
            &&& ms == seq![ms[0]] + column_matches(hit, x, ms[0].y + 1, y_to)
        }),
    decreases y_to - y_from,
{
    if !hit(cell(x, y_from)) {
        lemma_column_after_first(hit, x, y_from + 1, y_to);
    }
}

/// A scan with matches is its first match followed by the matches of the
/// scan that starts one cell below it.
pub proof fn lemma_scan_after_first(hit: spec_fn(Point) -> bool, x: int, y_from: int, area: Rect)
    requires
        scan_in_range(x, y_from, area),
        scan_matches(hit, x, y_from, area).len() > 0,
    ensures
        ({
            let ms = scan_matches(hit, x, y_from, area);
            &&& in_scan(ms[0], x, y_from, area)
            &&& hit(ms[0])
            &&& ms == seq![ms[0]] + scan_matches(hit, ms[0].x as int, ms[0].y + 1, area)
        }),
    decreases area.spec_max_x() - x,
{
    let ms = scan_matches(hit, x, y_from, area);
    let column = column_matches(hit, x, y_from, area.spec_max_y());
    let rest = scan_matches(hit, x + 1, area.origin.y as int, area);
    assert(ms == column + rest);
    if column.len() > 0 {
        lemma_column_after_first(hit, x, y_from, area.spec_max_y());
        let p = column[0];
        let below = column_matches(hit, x, p.y + 1, area.spec_max_y());
        assert(ms[0] == p);
        assert(scan_matches(hit, x, p.y + 1, area) == below + rest);
        assert(ms =~= seq![p] + (below + rest));
    } else {
        assert(ms =~= rest);
        lemma_scan_after_first(hit, x + 1, area.origin.y as int, area);
    }
}

} // verus!
