//! The pixel buffer behind a bitmap: an `image::DynamicImage`, read through
//! a handful of calls whose contracts are stated here and taken on trust.

use crate::color::Color;
use image::DynamicImage;
use image::GenericImageView;
use vstd::prelude::*;

verus! {

/// `image::DynamicImage`, a decoded image of any pixel format. Nothing of its
/// inside is visible to proofs.
#[verifier::external_type_specification]
#[verifier::external_body]
pub struct ExDynamicImage(image::DynamicImage);

/// Width and height of an image, in pixels.
pub uninterp spec fn pixel_dimensions(img: DynamicImage) -> (nat, nat);

/// The pixels of an image as RGBA channel values, keyed by column and row.
/// Only keys within the image's dimensions mean anything.
pub uninterp spec fn pixel_map(img: DynamicImage) -> Map<(int, int), (u8, u8, u8, u8)>;

/// The color held at column `x`, row `y` of an image.
pub open spec fn pixel_at(img: DynamicImage, x: int, y: int) -> Color {
    let p = pixel_map(img)[(x, y)];
    Color { r: p.0, g: p.1, b: p.2, a: p.3 }
}

/// The smaller of two numbers.
pub open spec fn lesser(a: int, b: int) -> int {
    if a <= b {
        a
    } else {
        b
    }
}

/// `out` is the part of `src` that starts at column `x`, row `y` and is
/// `width` by `height` pixels, all four cut back to what `src` holds: the
/// start to the image's dimensions, then the extent to what is left from
/// there.
pub open spec fn is_cut_out(
    out: DynamicImage,
    src: DynamicImage,
    x: int,
    y: int,
    width: int,
    height: int,
) -> bool {
    let x0 = lesser(x, pixel_dimensions(src).0 as int);
    let y0 = lesser(y, pixel_dimensions(src).1 as int);
    &&& pixel_dimensions(out).0 == lesser(width, pixel_dimensions(src).0 - x0)
    &&& pixel_dimensions(out).1 == lesser(height, pixel_dimensions(src).1 - y0)
    &&& forall|i: int, j: int|
        0 <= i < pixel_dimensions(out).0 && 0 <= j < pixel_dimensions(out).1 ==> #[trigger] pixel_map(
            out,
        )[(i, j)] == pixel_map(src)[(x0 + i, y0 + j)]
}

/// `Clone::clone` on a `DynamicImage`: an image of the same dimensions that
/// holds the same pixels.
pub assume_specification[ <DynamicImage as Clone>::clone ](img: &DynamicImage) -> (copy:
    DynamicImage)
    ensures
        pixel_dimensions(copy) == pixel_dimensions(*img),
        forall|i: int, j: int|
            0 <= i < pixel_dimensions(copy).0 && 0 <= j < pixel_dimensions(copy).1
                ==> #[trigger] pixel_map(copy)[(i, j)] == pixel_map(*img)[(i, j)],
;

/// `DynamicImage::width`: the width of the image in pixels.
#[verifier::external_body]
pub(crate) fn image_width(img: &DynamicImage) -> (width: u32)
    ensures
        width == pixel_dimensions(*img).0,
{
    img.width()
}

/// `DynamicImage::height`: the height of the image in pixels.
#[verifier::external_body]
pub(crate) fn image_height(img: &DynamicImage) -> (height: u32)
    ensures
        height == pixel_dimensions(*img).1,
{
    img.height()
}

/// `GenericImageView::get_pixel` on a `DynamicImage`: the pixel at column
/// `x`, row `y`, as RGBA with 8 bits a channel. It panics outside the image,
/// which the precondition rules out.
#[verifier::external_body]
pub(crate) fn image_pixel(img: &DynamicImage, x: u32, y: u32) -> (color: Color)
    requires
        x < pixel_dimensions(*img).0,
        y < pixel_dimensions(*img).1,
    ensures
        color.r == pixel_map(*img)[(x as int, y as int)].0,
        color.g == pixel_map(*img)[(x as int, y as int)].1,
        color.b == pixel_map(*img)[(x as int, y as int)].2,
        color.a == pixel_map(*img)[(x as int, y as int)].3,
{
    let p = img.get_pixel(x, y);
    Color { r: p.0[0], g: p.0[1], b: p.0[2], a: p.0[3] }
}

/// `DynamicImage::crop`: a copy of the given part of the image, in the same
/// pixel format. The start is cut back to the image's dimensions and the
/// extent to what is left from there, so every request is answered. The image
/// itself is left as it was.
#[verifier::external_body]
pub(crate) fn image_crop(img: &mut DynamicImage, x: u32, y: u32, width: u32, height: u32) -> (out:
    DynamicImage)
    ensures
        *final(img) == *old(img),
        is_cut_out(out, *old(img), x as int, y as int, width as int, height as int),
{
    img.crop(x, y, width, height)
}

} // verus!
