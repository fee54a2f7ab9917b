use autopilot::alert::alert;
use autopilot::alert::Response;
use autopilot::bitmap::Bitmap;
use autopilot::bitmap::BitmapError;
use autopilot::color::Color;
use autopilot::geometry::Point;
use autopilot::geometry::Ratio;
use autopilot::geometry::Rect;
use autopilot::geometry::Size;
use autopilot::key::flags_for_char;
use autopilot::key::keystroke;
use autopilot::key::pace;
use autopilot::key::Character;
use autopilot::key::Code;
use autopilot::key::Flag;
use autopilot::key::KeyCode;
use autopilot::key::KeyCodeConvertible;
use autopilot::key::Keystroke;
use autopilot::key::Pace;
use autopilot::mouse::Button;
use autopilot::mouse::MouseError;
use autopilot::mouse::ScrollDirection;
use autopilot::screen;
use image::DynamicImage;
use image::Rgba;
use image::RgbaImage;

#[test]
fn alert_fills_in_what_is_not_given() {
    let shown = alert("Hello, world!", None, None, None);
    assert_eq!(shown.msg, "Hello, world!");
    assert_eq!(shown.title, "AutoPilot Alert");
    assert_eq!(shown.default_button, "OK");
    assert_eq!(shown.cancel_button, None);
}

#[test]
fn alert_keeps_what_is_given() {
    let shown = alert("Proceed?", Some("Question"), Some("Yes"), Some("No"));
    assert_eq!(shown.msg, "Proceed?");
    assert_eq!(shown.title, "Question");
    assert_eq!(shown.default_button, "Yes");
    assert_eq!(shown.cancel_button, Some("No"));
}

#[test]
fn alert_treats_empty_labels_as_missing() {
    let shown = alert("", Some(""), Some(""), Some(""));
    assert_eq!(shown.msg, "");
    assert_eq!(shown.title, "");
    assert_eq!(shown.default_button, "OK");
    assert_eq!(shown.cancel_button, None);
}

#[test]
fn response_flags() {
    assert_eq!(Response::from(0), Some(Response::Default));
    assert_eq!(Response::from(1), Some(Response::Cancel));
    assert_eq!(Response::from(3), Some(Response::Cancel));
    assert_eq!(Response::from(2), None);
    assert_eq!(Response::from(4), None);
}

#[test]
fn an_alert_that_failed_or_was_answered_oddly_counts_as_cancelled() {
    assert_eq!(Response::resolve(0, 0), Response::Default);
    assert_eq!(Response::resolve(0, 1), Response::Cancel);
    assert_eq!(Response::resolve(0, 3), Response::Cancel);
    assert_eq!(Response::resolve(0, 2), Response::Cancel);
    assert_eq!(Response::resolve(1, 0), Response::Cancel);
    assert_eq!(Response::resolve(-1, 0), Response::Cancel);
}

#[test]
fn uppercase_and_shifted_punctuation_take_shift() {
    assert_eq!(flags_for_char('A'), vec![Flag::Shift]);
    assert_eq!(flags_for_char('Z'), vec![Flag::Shift]);
    assert_eq!(flags_for_char('É'), vec![Flag::Shift]);
    for c in "!#$%&()*+:<>?@{|}~".chars() {
        assert_eq!(flags_for_char(c), vec![Flag::Shift]);
    }
    assert_eq!(flags_for_char('a'), vec![]);
    assert_eq!(flags_for_char('1'), vec![]);
    assert_eq!(flags_for_char(' '), vec![]);
    assert_eq!(flags_for_char('-'), vec![]);
    assert_eq!(flags_for_char('"'), vec![]);
}

#[test]
fn keys_know_their_character() {
    assert_eq!(Character('x').character(), Some('x'));
    assert_eq!(Code(KeyCode::Return).character(), None);
    assert_eq!(Character('X').flags(), vec![]);
    assert_eq!(Code(KeyCode::Shift).flags(), vec![]);
}

#[test]
fn toggle_adds_the_flags_of_the_character_once() {
    let event = autopilot::key::toggle(Character('A'), true, &[Flag::Control]);
    assert_eq!(event.key.0, 'A');
    assert_eq!(event.down, true);
    assert_eq!(event.flags, vec![Flag::Control, Flag::Shift]);
    let event = autopilot::key::toggle(Character('A'), false, &[Flag::Shift, Flag::Alt]);
    assert_eq!(event.down, false);
    assert_eq!(event.flags, vec![Flag::Shift, Flag::Alt]);
    let event = autopilot::key::toggle(Character('a'), true, &[Flag::Meta]);
    assert_eq!(event.flags, vec![Flag::Meta]);
    let event = autopilot::key::toggle(Character('?'), true, &[]);
    assert_eq!(event.flags, vec![Flag::Shift]);
}

#[test]
fn toggle_of_a_key_code_keeps_the_flags() {
    let event = autopilot::key::toggle(Code(KeyCode::F1), true, &[Flag::Alt, Flag::Help]);
    assert_eq!(event.key.0, KeyCode::F1);
    assert_eq!(event.flags, vec![Flag::Alt, Flag::Help]);
}

#[test]
fn x_button_numbers() {
    assert_eq!(Button::Left.x_button(), 1);
    assert_eq!(Button::Middle.x_button(), 2);
    assert_eq!(Button::Right.x_button(), 3);
    assert_eq!(ScrollDirection::Up.x_button(), 4);
    assert_eq!(ScrollDirection::Down.x_button(), 5);
}

#[test]
fn the_cursor_moves_only_to_points_of_the_screen() {
    let size = Size::new(1920, 1080);
    assert!(matches!(autopilot::mouse::move_to(size, Point::new(0, 0)), Ok(())));
    assert!(matches!(autopilot::mouse::move_to(size, Point::new(1919, 1079)), Ok(())));
    assert!(matches!(
        autopilot::mouse::move_to(size, Point::new(1920, 0)),
        Err(MouseError::OutOfBounds)
    ));
    assert!(matches!(
        autopilot::mouse::move_to(size, Point::new(0, 1080)),
        Err(MouseError::OutOfBounds)
    ));
    assert!(matches!(
        autopilot::mouse::move_to(size, Point::new(-1, 5)),
        Err(MouseError::OutOfBounds)
    ));
}

#[test]
fn screen_size_in_points() {
    assert_eq!(screen::size(1920, 1080, Ratio::new(1, 1)), Size::new(1920, 1080));
    assert_eq!(screen::size(2880, 1800, Ratio::new(2, 1)), Size::new(1440, 900));
    assert_eq!(screen::size(3, 5, Ratio::new(2, 1)), Size::new(2, 3));
    assert_eq!(screen::size(1920, 1080, Ratio::new(5, 4)), Size::new(1536, 864));
}

#[test]
fn visibility_on_the_screen() {
    let size = Size::new(800, 600);
    assert!(screen::is_point_visible(size, Point::new(0, 0)));
    assert!(screen::is_point_visible(size, Point::new(799, 599)));
    assert!(!screen::is_point_visible(size, Point::new(800, 599)));
    assert!(!screen::is_point_visible(size, Point::new(799, 600)));
    assert!(!screen::is_point_visible(size, Point::new(-1, 0)));
    let whole = Rect::new(Point::new(0, 0), size);
    assert!(screen::is_rect_visible(size, whole));
    assert!(screen::is_rect_visible(size, Rect::new(Point::new(799, 599), Size::new(1, 1))));
    assert!(!screen::is_rect_visible(size, Rect::new(Point::new(799, 599), Size::new(2, 1))));
    assert!(!screen::is_rect_visible(size, Rect::new(Point::new(0, -1), Size::new(1, 1))));
}

#[test]
fn the_color_of_a_capture_is_its_first_pixel() {
    let mut image = RgbaImage::new(1, 1);
    image.put_pixel(0, 0, Rgba([1, 2, 3, 4]));
    let capture = Bitmap::new(DynamicImage::ImageRgba8(image), Some(Ratio::new(2, 1)));
    assert_eq!(screen::get_color(Ok(capture)), Ok(Color::new(1, 2, 3, 4)));
    assert_eq!(screen::get_color(Err(BitmapError::Dimension)), Err(BitmapError::Dimension));
    assert_eq!(
        screen::get_color(Err(BitmapError::InsufficientData)),
        Err(BitmapError::InsufficientData)
    );
}

#[test]
fn pace_of_typing() {
    assert_eq!(
        pace(Ratio::new(60, 1), Ratio::new(0, 1)),
        Pace { ms_per_character: 200, ms_per_stroke: 100, tolerance: 0 }
    );
    assert_eq!(
        pace(Ratio::new(70, 1), Ratio::new(1, 10)),
        Pace { ms_per_character: 171, ms_per_stroke: 86, tolerance: 17 }
    );
    assert_eq!(
        pace(Ratio::new(0, 1), Ratio::new(1, 2)),
        Pace { ms_per_character: 0, ms_per_stroke: 0, tolerance: 0 }
    );
    assert_eq!(
        pace(Ratio::new(24000, 1), Ratio::new(1, 1)),
        Pace { ms_per_character: 1, ms_per_stroke: 1, tolerance: 1 }
    );
    assert_eq!(
        pace(Ratio::new(1, 4294967295), Ratio::new(4294967295, 1)),
        Pace {
            ms_per_character: 51539607540000,
            ms_per_stroke: 25769803770000,
            tolerance: 18446744073709551615,
        }
    );
}

#[test]
fn a_keystroke_rests_for_a_stroke_and_the_noise() {
    let slow = Pace { ms_per_character: 171, ms_per_stroke: 86, tolerance: 17 };
    assert_eq!(keystroke('x', slow, 0), Keystroke { character: 'x', hold_ms: 86, pause_ms: 86 });
    assert_eq!(keystroke('y', slow, 16), Keystroke { character: 'y', hold_ms: 86, pause_ms: 102 });
}

#[test]
fn a_string_is_typed_character_by_character() {
    let strokes = autopilot::key::type_string("héllo, wörld", Ratio::new(70, 1), Ratio::new(1, 10));
    let characters: Vec<char> = strokes.iter().map(|stroke| stroke.character).collect();
    assert_eq!(characters, "héllo, wörld".chars().collect::<Vec<char>>());
    for stroke in &strokes {
        assert_eq!(stroke.hold_ms, 86);
        assert!(86 <= stroke.pause_ms && stroke.pause_ms < 86 + 17);
    }
    assert_eq!(autopilot::key::type_string("", Ratio::new(70, 1), Ratio::new(1, 10)), vec![]);
}

#[test]
fn without_noise_every_rest_is_a_stroke() {
    let strokes = autopilot::key::type_string("abc", Ratio::new(60, 1), Ratio::new(0, 1));
    assert_eq!(strokes.len(), 3);
    for stroke in &strokes {
        assert_eq!(stroke.hold_ms, 100);
        assert_eq!(stroke.pause_ms, 100);
    }
    let fast = autopilot::key::type_string("ab", Ratio::new(0, 1), Ratio::new(1, 2));
    for stroke in &fast {
        assert_eq!(stroke.hold_ms, 0);
        assert_eq!(stroke.pause_ms, 0);
    }
}
