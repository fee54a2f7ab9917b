use autopilot::geometry::Point;
use autopilot::geometry::Ratio;
use autopilot::geometry::Rect;
use autopilot::geometry::Size;

fn rect(x: i64, y: i64, width: u64, height: u64) -> Rect {
    Rect::new(Point::new(x, y), Size::new(width, height))
}

#[test]
fn ratio_constants_and_inverse() {
    assert_eq!(Ratio::one(), Ratio::new(1, 1));
    assert_eq!(Ratio::zero(), Ratio::new(0, 1));
    assert_eq!(Ratio::new(3, 2).inverse(), Ratio::new(2, 3));
    assert_eq!(Point::zero(), Point::new(0, 0));
}

#[test]
fn scaling_rounds_to_the_nearest_and_halves_away_from_zero() {
    let half = Ratio::new(1, 2);
    assert_eq!(half.scale(4), 2);
    assert_eq!(half.scale(5), 3);
    assert_eq!(Ratio::new(1, 3).scale(4), 1);
    assert_eq!(Ratio::new(1, 3).scale(5), 2);
    assert_eq!(Ratio::new(5, 4).scale(2), 3);
    assert_eq!(Ratio::new(3, 1).scale(18446744073709551615), 55340232221128654845);
    assert_eq!(Point::new(5, -5).scaled(half), Point::new(3, -3));
    assert_eq!(Point::new(-1, 1).scaled(Ratio::new(1, 4)), Point::new(0, 0));
    assert_eq!(Point::new(-3, 3).scaled(Ratio::new(1, 4)), Point::new(-1, 1));
    assert_eq!(Point::new(7, -9).scaled(Ratio::new(2, 1)), Point::new(14, -18));
    assert_eq!(Point::new(7, -9).scaled(Ratio::new(0, 5)), Point::new(0, 0));
    assert_eq!(Size::new(3, 5).scaled(half), Size::new(2, 3));
    assert_eq!(rect(3, -3, 5, 4).scaled(half), rect(2, -2, 3, 2));
}

#[test]
fn distance_squared_between_points() {
    assert_eq!(Point::new(0, 0).distance_squared(Point::new(3, 4)), 25);
    assert_eq!(Point::new(-2, 5).distance_squared(Point::new(1, 1)), 25);
    assert_eq!(Point::new(7, 7).distance_squared(Point::new(7, 7)), 0);
}

#[test]
fn rect_edges() {
    let r = rect(2, -3, 4, 5);
    assert_eq!(r.max_x(), 6);
    assert_eq!(r.max_y(), 2);
    assert_eq!(rect(9223372036854775807, 0, 18446744073709551615, 0).max_x(), 27670116110564327422);
}

#[test]
fn a_point_is_visible_from_the_origin_up_to_the_far_edges() {
    let r = rect(1, 1, 3, 2);
    assert!(r.is_point_visible(Point::new(1, 1)));
    assert!(r.is_point_visible(Point::new(3, 2)));
    assert!(!r.is_point_visible(Point::new(4, 2)));
    assert!(!r.is_point_visible(Point::new(3, 3)));
    assert!(!r.is_point_visible(Point::new(0, 1)));
    assert!(!r.is_point_visible(Point::new(1, 0)));
    assert!(!rect(0, 0, 0, 0).is_point_visible(Point::new(0, 0)));
}

#[test]
fn a_rect_is_visible_up_to_and_including_the_edges() {
    let r = rect(0, 0, 4, 4);
    assert!(r.is_rect_visible(rect(0, 0, 4, 4)));
    assert!(r.is_rect_visible(rect(1, 2, 3, 2)));
    assert!(r.is_rect_visible(rect(4, 4, 0, 0)));
    assert!(!r.is_rect_visible(rect(1, 2, 4, 2)));
    assert!(!r.is_rect_visible(rect(1, 2, 3, 3)));
    assert!(!r.is_rect_visible(rect(-1, 0, 2, 2)));
    assert!(!r.is_rect_visible(rect(0, -1, 2, 2)));
    assert!(rect(0, 0, 0, 0).is_rect_visible(rect(0, 0, 0, 0)));
}

#[test]
fn iter_point_walks_down_the_columns() {
    let r = rect(1, 1, 2, 2);
    assert_eq!(r.iter_point(Point::new(1, 1)), Some(Point::new(1, 2)));
    assert_eq!(r.iter_point(Point::new(1, 2)), Some(Point::new(2, 1)));
    assert_eq!(r.iter_point(Point::new(2, 1)), Some(Point::new(2, 2)));
    assert_eq!(r.iter_point(Point::new(2, 2)), None);
    let mut visited = vec![Point::new(1, 1)];
    while let Some(next) = r.iter_point(visited[visited.len() - 1]) {
        visited.push(next);
    }
    assert_eq!(
        visited,
        vec![Point::new(1, 1), Point::new(1, 2), Point::new(2, 1), Point::new(2, 2)]
    );
}
