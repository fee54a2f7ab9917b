//! The main screen: what lies on it, and what is read from a capture of it.
//!
//! The size of the screen is asked of the system by the caller and handed
//! in; nothing here talks to a display.

use crate::bitmap::Bitmap;
use crate::bitmap::BitmapError;
use crate::color::Color;
use crate::geometry::Point;
use crate::geometry::Ratio;
use crate::geometry::Rect;
use crate::geometry::Size;
use crate::raster::image_pixel;
use vstd::prelude::*;

verus! {

/// The rectangle that a screen of the given size covers.
pub open spec fn screen_rect(size: Size) -> Rect {
    Rect { origin: Point { x: 0, y: 0 }, size }
}

/// The size of the screen in points: its size in pixels divided by `scale`,
/// the number of pixels in a point.
pub fn size(pixel_width: u32, pixel_height: u32, scale: Ratio) -> (size: Size)
    requires
        scale.is_positive(),
        scale.spec_inverse().apply(pixel_width as int) <= u64::MAX,
        scale.spec_inverse().apply(pixel_height as int) <= u64::MAX,
    ensures
        size.width == scale.spec_inverse().apply(pixel_width as int),
        size.height == scale.spec_inverse().apply(pixel_height as int),
{
    Size::new(pixel_width as u64, pixel_height as u64).scaled(scale.inverse())
}

/// Whether `point` lies on a screen of the given size.
pub fn is_point_visible(size: Size, point: Point) -> (visible: bool)
    ensures
        visible == screen_rect(size).spec_is_point_visible(point),
{
    Rect::new(Point::zero(), size).is_point_visible(point)
}

/// Whether `rect` lies on a screen of the given size, edges included.
pub fn is_rect_visible(size: Size, rect: Rect) -> (visible: bool)
    ensures
        visible == screen_rect(size).spec_is_rect_visible(rect),
{
    Rect::new(Point::zero(), size).is_rect_visible(rect)
}

/// The color at a point of the screen, given what capturing the one-by-one
/// portion of the screen at that point came to: the first pixel of the
/// capture, or the error with which the capture failed.
pub fn get_color(capture: Result<Bitmap, BitmapError>) -> (color: Result<Color, BitmapError>)
    requires
        capture matches Ok(bitmap) ==> bitmap.pixel_width() > 0 && bitmap.pixel_height() > 0,
    ensures
        match capture {
            Ok(bitmap) => color == Ok::<Color, BitmapError>(bitmap.pixel(0, 0)),
            Err(error) => color == Err::<Color, BitmapError>(error),
        },
{
    match capture {
        Ok(bitmap) => Ok(image_pixel(&bitmap.image, 0, 0)),
        Err(error) => Err(error),
    }
}

} // verus!
