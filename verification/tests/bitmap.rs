use autopilot::bitmap::capture_screen;
use autopilot::bitmap::capture_screen_portion;
use autopilot::bitmap::Bitmap;
use autopilot::bitmap::BitmapError;
use autopilot::bitmap::Matches;
use autopilot::bitmap::Needle;
use autopilot::color::Color;
use autopilot::geometry::Point;
use autopilot::geometry::Ratio;
use autopilot::geometry::Rect;
use autopilot::geometry::Size;
use image::DynamicImage;
use image::GenericImageView;
use image::Rgba;
use image::RgbaImage;

const BLACK: [u8; 4] = [0, 0, 0, 255];
const RED: [u8; 4] = [255, 0, 0, 255];

fn image_of(width: u32, height: u32, pixel: fn(u32, u32) -> [u8; 4]) -> DynamicImage {
    let mut image = RgbaImage::new(width, height);
    for x in 0..width {
        for y in 0..height {
            image.put_pixel(x, y, Rgba(pixel(x, y)));
        }
    }
    DynamicImage::ImageRgba8(image)
}

/// Pixels that differ from cell to cell, so that no two regions look alike.
fn speckled(x: u32, y: u32) -> [u8; 4] {
    let n = x.wrapping_mul(7919).wrapping_add(y.wrapping_mul(104729)).wrapping_mul(2654435761);
    [(n >> 24) as u8, (n >> 16) as u8, (n >> 8) as u8, 255]
}

fn all_black(_x: u32, _y: u32) -> [u8; 4] {
    BLACK
}

fn all_red(_x: u32, _y: u32) -> [u8; 4] {
    RED
}

fn black_with_red_at_2_1(x: u32, y: u32) -> [u8; 4] {
    if x == 2 && y == 1 {
        RED
    } else {
        BLACK
    }
}

fn black_with_red_at_1_1(x: u32, y: u32) -> [u8; 4] {
    if x == 1 && y == 1 {
        RED
    } else {
        BLACK
    }
}

fn coordinates(x: u32, y: u32) -> [u8; 4] {
    [x as u8, y as u8, 0, 255]
}

fn red() -> Color {
    Color::new(255, 0, 0, 255)
}

fn black() -> Color {
    Color::new(0, 0, 0, 255)
}

fn rect(x: i64, y: i64, width: u64, height: u64) -> Rect {
    Rect::new(Point::new(x, y), Size::new(width, height))
}

#[test]
fn find_bitmap() {
    let haystack = Bitmap::new(image_of(24, 16, speckled), None);
    let needles = [
        image_of(24, 16, speckled).crop_imm(3, 5, 6, 4),
        image_of(24, 16, speckled).crop_imm(17, 0, 7, 16),
    ];
    for needle_image in needles {
        let needle = Bitmap::new(needle_image, None);
        let pt = haystack.find_bitmap(&needle, None, None, None);
        assert_eq!(pt.is_some(), true);
    }
}

#[test]
fn new_takes_size_from_image_and_scale_defaults_to_one() {
    let bitmap = Bitmap::new(image_of(5, 3, speckled), None);
    assert_eq!(bitmap.size, Size::new(5, 3));
    assert_eq!(bitmap.scale, Ratio::new(1, 1));
    assert_eq!(bitmap.bounds(), rect(0, 0, 5, 3));
    assert_eq!(bitmap.multiplier(), Ratio::new(1, 1));
    let scaled = Bitmap::new(image_of(6, 4, speckled), Some(Ratio::new(2, 1)));
    assert_eq!(scaled.size, Size::new(3, 2));
    assert_eq!(scaled.scale, Ratio::new(2, 1));
    assert_eq!(scaled.multiplier(), Ratio::new(1, 2));
    assert_eq!(scaled.bounds(), rect(0, 0, 3, 2));
}

#[test]
fn the_buffer_is_the_size_times_the_scale() {
    let scales = [Ratio::new(1, 1), Ratio::new(2, 1), Ratio::new(3, 2), Ratio::new(1, 2), Ratio::new(2, 3)];
    for scale in scales {
        let bitmap = Bitmap::new(image_of(6, 12, speckled), Some(scale));
        assert_eq!(scale.scale(bitmap.size.width), 6);
        assert_eq!(scale.scale(bitmap.size.height), 12);
    }
    assert_eq!(Bitmap::new(image_of(6, 12, speckled), Some(Ratio::new(3, 2))).size, Size::new(4, 8));
    assert_eq!(Bitmap::new(image_of(6, 12, speckled), Some(Ratio::new(1, 2))).size, Size::new(12, 24));
    assert_eq!(Bitmap::new(image_of(6, 12, speckled), Some(Ratio::new(2, 3))).size, Size::new(9, 18));
}

#[test]
fn a_buffer_that_is_no_whole_number_of_points_gets_the_nearest_size() {
    let bitmap = Bitmap::new(image_of(5, 3, speckled), Some(Ratio::new(2, 1)));
    assert_eq!(bitmap.size, Size::new(3, 2));
    assert_eq!(Ratio::new(2, 1).scale(bitmap.size.width), 6);
    assert_eq!(Ratio::new(2, 1).scale(bitmap.size.height), 4);
}

#[test]
fn get_pixel_reads_the_buffer() {
    let bitmap = Bitmap::new(image_of(4, 4, coordinates), None);
    assert_eq!(bitmap.get_pixel(Point::new(0, 0)), Color::new(0, 0, 0, 255));
    assert_eq!(bitmap.get_pixel(Point::new(3, 1)), Color::new(3, 1, 0, 255));
    assert_eq!(bitmap.get_pixel(Point::new(1, 3)), Color::new(1, 3, 0, 255));
}

#[test]
fn get_pixel_divides_by_the_scale_and_rounds_halves_up() {
    let bitmap = Bitmap::new(image_of(4, 4, coordinates), Some(Ratio::new(2, 1)));
    assert_eq!(bitmap.get_pixel(Point::new(0, 0)), Color::new(0, 0, 0, 255));
    assert_eq!(bitmap.get_pixel(Point::new(1, 1)), Color::new(1, 1, 0, 255));
    assert_eq!(bitmap.get_pixel(Point::new(2, 2)), Color::new(1, 1, 0, 255));
    assert_eq!(bitmap.get_pixel(Point::new(3, 2)), Color::new(2, 1, 0, 255));
    let thirds = Bitmap::new(image_of(3, 3, coordinates), Some(Ratio::new(3, 2)));
    assert_eq!(thirds.size, Size::new(2, 2));
    assert_eq!(thirds.get_pixel(Point::new(3, 2)), Color::new(2, 1, 0, 255));
}

#[test]
fn cropped_copies_the_region() {
    let mut source = Bitmap::new(image_of(6, 5, coordinates), None);
    let crop = source.cropped(rect(2, 1, 3, 2)).unwrap();
    assert_eq!(crop.size, Size::new(3, 2));
    assert_eq!(crop.scale, Ratio::new(1, 1));
    assert_eq!(crop.image.width(), 3);
    assert_eq!(crop.image.height(), 2);
    for x in 0..3 {
        for y in 0..2 {
            assert_eq!(
                crop.get_pixel(Point::new(x, y)),
                Color::new(x as u8 + 2, y as u8 + 1, 0, 255)
            );
        }
    }
    assert_eq!(source.size, Size::new(6, 5));
    assert_eq!(source.get_pixel(Point::new(5, 4)), Color::new(5, 4, 0, 255));
}

#[test]
fn cropped_keeps_the_scale() {
    let mut source = Bitmap::new(image_of(16, 16, coordinates), Some(Ratio::new(2, 1)));
    assert_eq!(source.size, Size::new(8, 8));
    let crop = source.cropped(rect(4, 4, 4, 4)).unwrap();
    assert_eq!(crop.scale, Ratio::new(2, 1));
    assert_eq!(crop.image.width(), 2);
    assert_eq!(crop.image.height(), 2);
    assert_eq!(crop.image.get_pixel(1, 0), Rgba([3, 2, 0, 255]));
    assert_eq!(crop.size, Size::new(1, 1));
    assert_eq!(crop.get_pixel(Point::new(0, 0)), Color::new(2, 2, 0, 255));
    let odd = source.cropped(rect(2, 2, 2, 6)).unwrap();
    assert_eq!(odd.image.width(), 1);
    assert_eq!(odd.image.height(), 3);
    assert_eq!(odd.image.get_pixel(0, 2), Rgba([1, 3, 0, 255]));
    assert_eq!(odd.size, Size::new(1, 2));
    assert!(matches!(source.cropped(rect(6, 6, 3, 2)), Err(BitmapError::Dimension)));
}

#[test]
fn cropped_accepts_the_whole_and_the_empty() {
    let mut source = Bitmap::new(image_of(3, 3, coordinates), None);
    let whole = source.cropped(rect(0, 0, 3, 3)).unwrap();
    assert_eq!(whole.size, Size::new(3, 3));
    let empty = source.cropped(rect(3, 3, 0, 0)).unwrap();
    assert_eq!(empty.size, Size::new(0, 0));
}

#[test]
fn cropped_rejects_what_is_not_within_bounds() {
    let mut source = Bitmap::new(image_of(3, 3, coordinates), None);
    assert!(matches!(source.cropped(rect(1, 1, 3, 1)), Err(BitmapError::Dimension)));
    assert!(matches!(source.cropped(rect(1, 1, 1, 3)), Err(BitmapError::Dimension)));
    assert!(matches!(source.cropped(rect(-1, 0, 2, 2)), Err(BitmapError::Dimension)));
    assert!(matches!(source.cropped(rect(0, 4, 0, 0)), Err(BitmapError::Dimension)));
}

#[test]
fn finds_the_red_pixel_and_counts_the_black_ones() {
    let haystack = Bitmap::new(image_of(4, 4, black_with_red_at_2_1), None);
    assert_eq!(
        haystack.find_color(red(), Some(Ratio::new(0, 1)), None, None),
        Some(Point::new(2, 1))
    );
    assert_eq!(haystack.count_of_color(black(), Some(Ratio::new(0, 1)), None, None), 15);
    assert_eq!(haystack.count_of_color(red(), None, None, None), 1);
    assert_eq!(haystack.find_color(Color::new(0, 255, 0, 255), None, None, None), None);
}

#[test]
fn find_color_ignores_alpha() {
    let haystack = Bitmap::new(image_of(4, 4, black_with_red_at_2_1), None);
    assert_eq!(
        haystack.find_color(Color::new(255, 0, 0, 0), None, None, None),
        Some(Point::new(2, 1))
    );
}

#[test]
fn find_color_within_tolerance() {
    let haystack = Bitmap::new(image_of(4, 4, black_with_red_at_2_1), None);
    let nearly_red = Color::new(250, 3, 0, 255);
    assert_eq!(haystack.find_color(nearly_red, None, None, None), None);
    assert_eq!(
        haystack.find_color(nearly_red, Some(Ratio::new(1, 50)), None, None),
        Some(Point::new(2, 1))
    );
    assert_eq!(
        haystack.find_color(nearly_red, Some(Ratio::new(1, 1)), None, None),
        Some(Point::new(0, 0))
    );
}

#[test]
fn find_scans_columns_left_to_right_and_each_from_the_top() {
    let haystack = Bitmap::new(image_of(3, 3, all_red), None);
    assert_eq!(
        haystack.find_every_color(red(), None, None, None),
        vec![
            Point::new(0, 0),
            Point::new(0, 1),
            Point::new(0, 2),
            Point::new(1, 0),
            Point::new(1, 1),
            Point::new(1, 2),
            Point::new(2, 0),
            Point::new(2, 1),
            Point::new(2, 2),
        ]
    );
}

#[test]
fn find_starts_part_way_down_the_first_column_only() {
    let haystack = Bitmap::new(image_of(3, 3, all_red), None);
    let start = Some(Point::new(1, 1));
    assert_eq!(haystack.find_color(red(), None, None, start), Some(Point::new(1, 1)));
    assert_eq!(
        haystack.find_every_color(red(), None, None, start),
        vec![
            Point::new(1, 1),
            Point::new(1, 2),
            Point::new(2, 0),
            Point::new(2, 1),
            Point::new(2, 2),
        ]
    );
    assert_eq!(haystack.count_of_color(red(), None, None, start), 5);
}

#[test]
fn find_covers_the_rectangle_from_its_origin() {
    let haystack = Bitmap::new(image_of(3, 3, all_red), None);
    let area = Some(rect(1, 1, 2, 2));
    assert_eq!(haystack.find_color(red(), None, area, None), Some(Point::new(1, 1)));
    assert_eq!(
        haystack.find_every_color(red(), None, area, None),
        vec![Point::new(1, 1), Point::new(1, 2), Point::new(2, 1), Point::new(2, 2)]
    );
    let inner = Some(rect(0, 0, 2, 2));
    assert_eq!(haystack.count_of_color(red(), None, inner, None), 4);
}

#[test]
fn find_from_a_start_left_of_the_rectangle() {
    let haystack = Bitmap::new(image_of(3, 3, all_red), None);
    let area = Some(rect(1, 1, 2, 2));
    let start = Some(Point::new(0, 2));
    assert_eq!(
        haystack.find_every_color(red(), None, area, start),
        vec![
            Point::new(0, 2),
            Point::new(1, 1),
            Point::new(1, 2),
            Point::new(2, 1),
            Point::new(2, 2),
        ]
    );
}

#[test]
fn find_color_past_the_only_match_finds_nothing() {
    let haystack = Bitmap::new(image_of(4, 4, black_with_red_at_2_1), None);
    assert_eq!(haystack.find_color(red(), None, None, Some(Point::new(2, 2))), None);
    assert_eq!(
        haystack.find_color(red(), None, None, Some(Point::new(2, 1))),
        Some(Point::new(2, 1))
    );
    assert_eq!(haystack.find_color(red(), None, Some(rect(0, 0, 2, 4)), None), None);
}

#[test]
fn find_color_on_a_scaled_bitmap() {
    let haystack = Bitmap::new(image_of(8, 8, black_with_red_at_1_1), Some(Ratio::new(2, 1)));
    assert_eq!(haystack.size, Size::new(4, 4));
    assert_eq!(haystack.find_color(red(), None, None, None), Some(Point::new(1, 1)));
    assert_eq!(haystack.find_color(red(), None, None, Some(Point::new(3, 3))), None);
    assert_eq!(haystack.find_color(red(), None, None, Some(Point::new(2, 1))), Some(Point::new(1, 1)));
}

#[test]
fn every_color_is_counted_and_comes_in_order() {
    let haystack = Bitmap::new(image_of(7, 5, speckled), None);
    let needle = haystack.get_pixel(Point::new(3, 2));
    let tolerance = Some(Ratio::new(3, 10));
    let points = haystack.find_every_color(needle, tolerance, None, None);
    let count = haystack.count_of_color(needle, tolerance, None, None);
    assert_eq!(points.len() as u64, count);
    assert!(points.contains(&Point::new(3, 2)));
    for pair in points.windows(2) {
        assert!(pair[0].x < pair[1].x || (pair[0].x == pair[1].x && pair[0].y < pair[1].y));
    }
}

#[test]
fn finds_cropped_bitmap() {
    let haystack = Bitmap::new(image_of(9, 7, speckled), None);
    let sub_rects = [rect(0, 0, 9, 7), rect(2, 3, 4, 2), rect(8, 6, 1, 1), rect(5, 0, 1, 7)];
    for sub_rect in sub_rects {
        let needle = haystack.clone().cropped(sub_rect).unwrap();
        let pt_a = haystack.find_bitmap(&needle, None, None, None);
        let pt_b = haystack.find_bitmap(&needle, None, None, Some(sub_rect.origin));
        assert!(pt_a.is_some());
        assert_eq!(pt_b, Some(sub_rect.origin));
    }
}

#[test]
fn finds_cropped_bitmap_where_it_was_taken() {
    let haystack = Bitmap::new(image_of(9, 7, speckled), None);
    let needle = haystack.clone().cropped(rect(2, 3, 4, 2)).unwrap();
    assert_eq!(haystack.find_bitmap(&needle, None, None, None), Some(Point::new(2, 3)));
    assert_eq!(haystack.find_every_bitmap(&needle, None, None, None), vec![Point::new(2, 3)]);
    assert_eq!(haystack.count_of_bitmap(&needle, None, None, None), 1);
}

#[test]
fn skips_inverted_bitmap() {
    let haystack = Bitmap::new(image_of(6, 6, speckled), None);
    let mut inverted = haystack.image.clone();
    inverted.invert();
    let needle = Bitmap::new(inverted, None);
    assert_eq!(haystack.find_bitmap(&needle, None, None, None), None);
    let gray = Bitmap::new(image_of(2, 2, |_, _| [127, 128, 127, 255]), None);
    let mut inverted_gray = gray.image.clone();
    inverted_gray.invert();
    assert_eq!(gray.find_bitmap(&Bitmap::new(inverted_gray, None), None, None, None), None);
}

#[test]
fn count_of_tiled_bitmap() {
    let tile = Bitmap::new(image_of(3, 2, speckled), None);
    let mut haystack_image = DynamicImage::new_rgba8(3 * 2 + 1, 2 * 2 + 1);
    for x in 0..3 * 2 {
        for y in 0..2 * 2 {
            let pixel = tile.image.get_pixel(x % 3, y % 2);
            image::GenericImage::put_pixel(&mut haystack_image, x, y, pixel);
        }
    }
    let haystack = Bitmap::new(haystack_image, Some(tile.scale));
    assert!(haystack.count_of_bitmap(&tile, None, None, None) >= 4);
    assert_eq!(
        haystack.find_every_bitmap(&tile, None, None, None),
        vec![Point::new(0, 0), Point::new(0, 2), Point::new(3, 0), Point::new(3, 2)]
    );
}

#[test]
fn overlapping_matches_are_all_found() {
    let haystack = Bitmap::new(image_of(3, 3, all_black), None);
    let needle = Bitmap::new(image_of(2, 2, all_black), None);
    assert_eq!(
        haystack.find_every_bitmap(&needle, None, None, None),
        vec![Point::new(0, 0), Point::new(0, 1), Point::new(1, 0), Point::new(1, 1)]
    );
    assert_eq!(haystack.count_of_bitmap(&needle, None, None, None), 4);
}

#[test]
fn oversized_needle_is_never_found() {
    let haystack = Bitmap::new(image_of(3, 3, all_black), None);
    let needle = Bitmap::new(image_of(4, 4, all_black), None);
    assert!(haystack.is_needle_oversized(&needle));
    assert_eq!(haystack.find_bitmap(&needle, None, None, None), None);
    assert_eq!(haystack.find_every_bitmap(&needle, None, None, None), vec![]);
    assert_eq!(haystack.count_of_bitmap(&needle, None, None, None), 0);
}

#[test]
fn needle_larger_in_one_direction_is_scanned_for_and_not_found() {
    let haystack = Bitmap::new(image_of(3, 3, all_black), None);
    let wide = Bitmap::new(image_of(4, 2, all_black), None);
    let tall = Bitmap::new(image_of(2, 4, all_black), None);
    assert!(!haystack.is_needle_oversized(&wide));
    assert!(!haystack.is_needle_oversized(&tall));
    assert_eq!(haystack.find_bitmap(&wide, None, None, None), None);
    assert_eq!(haystack.find_bitmap(&tall, None, None, None), None);
    assert_eq!(haystack.count_of_bitmap(&wide, None, None, None), 0);
    assert_eq!(haystack.find_every_bitmap(&tall, None, None, None), vec![]);
}

#[test]
fn is_needle_at_wants_every_pixel_inside_and_matching() {
    let haystack = Bitmap::new(image_of(4, 4, black_with_red_at_2_1), None);
    let needle = Bitmap::new(image_of(2, 2, all_black), None);
    assert!(haystack.is_needle_at(Point::new(0, 0), &needle, None));
    assert!(!haystack.is_needle_at(Point::new(1, 1), &needle, None));
    assert!(!haystack.is_needle_at(Point::new(2, 0), &needle, None));
    assert!(haystack.is_needle_at(Point::new(2, 2), &needle, None));
    assert!(!haystack.is_needle_at(Point::new(3, 3), &needle, None));
    assert!(!haystack.is_needle_at(Point::new(-1, 0), &needle, None));
    assert!(haystack.is_needle_at(Point::new(1, 1), &needle, Some(Ratio::new(3, 5))));
    assert!(!haystack.is_needle_at(Point::new(1, 1), &needle, Some(Ratio::new(1, 2))));
}

#[test]
fn find_takes_either_kind_of_needle() {
    let haystack = Bitmap::new(image_of(4, 4, black_with_red_at_2_1), None);
    let needle = Bitmap::new(image_of(1, 1, all_red), None);
    assert_eq!(haystack.find(None, None, &Needle::Color(red()), None), Some(Point::new(2, 1)));
    assert_eq!(haystack.find(None, None, &Needle::Bitmap(&needle), None), Some(Point::new(2, 1)));
}

#[test]
fn find_all_adds_to_what_was_recorded() {
    let haystack = Bitmap::new(image_of(4, 4, black_with_red_at_2_1), None);
    let mut points = Matches::Points(vec![Point::new(9, 9)]);
    haystack.find_all(None, None, &Needle::Color(red()), None, &mut points);
    assert!(matches!(points, Matches::Points(ref v) if *v == vec![Point::new(9, 9), Point::new(2, 1)]));
    let mut count = Matches::Count(7);
    haystack.find_all(None, None, &Needle::Color(black()), None, &mut count);
    assert!(matches!(count, Matches::Count(22)));
    count.record(Point::new(0, 0));
    assert!(matches!(count, Matches::Count(23)));
}

#[test]
fn clone_holds_the_same_pixels() {
    let bitmap = Bitmap::new(image_of(3, 2, coordinates), Some(Ratio::new(1, 1)));
    let copy = bitmap.clone();
    assert_eq!(copy.size, Size::new(3, 2));
    assert_eq!(copy.scale, Ratio::new(1, 1));
    assert_eq!(copy.get_pixel(Point::new(2, 1)), Color::new(2, 1, 0, 255));
}

#[test]
fn capture_requests_are_held_to_the_screen() {
    let screen = Size::new(10, 8);
    assert_eq!(capture_screen(screen), Ok(rect(0, 0, 10, 8)));
    assert_eq!(capture_screen_portion(screen, rect(5, 5, 5, 3)), Ok(rect(5, 5, 5, 3)));
    assert_eq!(capture_screen_portion(screen, rect(5, 5, 6, 3)), Err(BitmapError::Dimension));
    assert_eq!(capture_screen_portion(screen, rect(-1, 0, 1, 1)), Err(BitmapError::Dimension));
}

#[test]
fn capture_without_an_image_is_insufficient_data() {
    assert!(matches!(
        Bitmap::from_capture(None, Ratio::new(2, 1)),
        Err(BitmapError::InsufficientData)
    ));
    let captured = Bitmap::from_capture(Some(image_of(4, 2, coordinates)), Ratio::new(2, 1)).unwrap();
    assert_eq!(captured.size, Size::new(2, 1));
    assert_eq!(captured.scale, Ratio::new(2, 1));
}

#[test]
fn a_rectangle_without_rows_still_gives_the_start_column() {
    let haystack = Bitmap::new(image_of(3, 3, all_red), None);
    let area = Some(rect(0, 3, 3, 0));
    let start = Some(Point::new(0, 1));
    assert_eq!(
        haystack.find_every_color(red(), None, area, start),
        vec![Point::new(0, 1), Point::new(0, 2)]
    );
    assert_eq!(haystack.count_of_color(red(), None, area, start), 2);
    let none = Some(rect(1, 1, 0, 2));
    assert_eq!(haystack.find_every_color(red(), None, none, None), vec![]);
}

#[test]
fn clone_can_be_cropped_and_searched_for() {
    let haystack = Bitmap::new(image_of(5, 4, speckled), None);
    let mut copy = haystack.clone();
    let needle = copy.cropped(rect(1, 1, 2, 2)).unwrap();
    assert_eq!(copy.find_bitmap(&needle, None, None, None), Some(Point::new(1, 1)));
    assert_eq!(haystack.find_bitmap(&needle, None, None, None), Some(Point::new(1, 1)));
}

#[test]
fn find_bitmap_within_tolerance() {
    let haystack = Bitmap::new(image_of(4, 4, black_with_red_at_2_1), None);
    let needle = Bitmap::new(image_of(1, 1, |_, _| [200, 0, 0, 255]), None);
    assert_eq!(haystack.find_bitmap(&needle, None, None, None), None);
    assert_eq!(
        haystack.find_bitmap(&needle, Some(Ratio::new(1, 8)), None, None),
        Some(Point::new(2, 1))
    );
    assert_eq!(haystack.find_bitmap(&needle, Some(Ratio::new(1, 9)), None, None), None);
}

#[test]
fn cropped_is_cut_back_to_the_buffer() {
    let mut source = Bitmap::new(image_of(4, 4, coordinates), Some(Ratio::new(1, 2)));
    assert_eq!(source.size, Size::new(8, 8));
    assert_eq!(source.multiplier(), Ratio::new(2, 1));
    let crop = source.cropped(rect(1, 1, 2, 2)).unwrap();
    assert_eq!(crop.image.width(), 2);
    assert_eq!(crop.image.height(), 2);
    assert_eq!(crop.size, Size::new(4, 4));
    assert_eq!(crop.scale, Ratio::new(1, 2));
    assert_eq!(crop.get_pixel(Point::new(0, 0)), Color::new(2, 2, 0, 255));
    assert_eq!(crop.image.get_pixel(1, 1), Rgba([3, 3, 0, 255]));
    let beyond = source.cropped(rect(3, 3, 1, 1)).unwrap();
    assert_eq!(beyond.size, Size::new(0, 0));
    let partly = source.cropped(rect(1, 3, 1, 1)).unwrap();
    assert_eq!(partly.image.width(), 2);
    assert_eq!(partly.image.height(), 0);
    assert_eq!(partly.size, Size::new(4, 0));
}

#[test]
fn every_color_is_found_and_counted_at_a_scale_of_two() {
    let haystack = Bitmap::new(image_of(8, 8, all_red), Some(Ratio::new(2, 1)));
    assert_eq!(haystack.size, Size::new(4, 4));
    assert_eq!(
        haystack.find_every_color(red(), None, None, None),
        vec![Point::new(0, 0), Point::new(0, 1), Point::new(1, 0), Point::new(1, 1)]
    );
    assert_eq!(haystack.count_of_color(red(), None, None, None), 4);
    let area = Some(rect(0, 0, 4, 2));
    let start = Some(Point::new(2, 0));
    assert_eq!(haystack.find_every_color(red(), None, area, start), vec![Point::new(1, 0)]);
    assert_eq!(haystack.count_of_color(red(), None, area, start), 1);
    let small = Bitmap::new(image_of(2, 2, all_red), Some(Ratio::new(2, 1)));
    assert_eq!(small.find_every_color(red(), None, None, None), vec![Point::new(0, 0)]);
    assert_eq!(small.count_of_color(red(), None, None, None), 1);
    assert_eq!(small.count_of_color(black(), None, None, None), 0);
}

#[test]
fn the_count_is_the_length_at_every_scale() {
    for scale in [Ratio::new(1, 1), Ratio::new(2, 1), Ratio::new(3, 1), Ratio::new(3, 2)] {
        let haystack = Bitmap::new(image_of(12, 6, speckled), Some(scale));
        let needle = haystack.get_pixel(Point::new(1, 1));
        let tolerance = Some(Ratio::new(2, 5));
        let points = haystack.find_every_color(needle, tolerance, None, None);
        let count = haystack.count_of_color(needle, tolerance, None, None);
        assert_eq!(points.len() as u64, count);
        assert!(count >= 1);
        for pair in points.windows(2) {
            assert!(pair[0].x < pair[1].x || (pair[0].x == pair[1].x && pair[0].y < pair[1].y));
        }
        let corner = image_of(12, 6, speckled).crop_imm(0, 0, scale.numer, scale.numer);
        let tile = Bitmap::new(corner, Some(scale));
        assert_eq!(scale.scale(tile.size.width), u128::from(scale.numer));
        let found = haystack.find_every_bitmap(&tile, tolerance, None, None);
        assert_eq!(found.len() as u64, haystack.count_of_bitmap(&tile, tolerance, None, None));
        assert_eq!(found.first(), Some(&Point::new(0, 0)));
        assert_eq!(haystack.find_bitmap(&tile, tolerance, None, None), Some(Point::new(0, 0)));
    }
}

#[test]
fn a_search_at_half_scale_that_stays_in_the_buffer() {
    let haystack = Bitmap::new(image_of(8, 8, black_with_red_at_2_1), Some(Ratio::new(1, 2)));
    assert_eq!(haystack.size, Size::new(16, 16));
    let corner = Some(rect(0, 0, 1, 1));
    assert_eq!(haystack.find_color(black(), None, corner, None), Some(Point::new(0, 0)));
    assert_eq!(haystack.count_of_color(black(), None, corner, None), 4);
    assert_eq!(haystack.find_color(red(), None, corner, None), None);
    let wider = Some(rect(0, 0, 2, 1));
    let every = haystack.find_every_color(black(), None, wider, None);
    assert_eq!(every.len(), 8);
}
