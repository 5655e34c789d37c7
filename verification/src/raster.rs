//! The pixel buffer of the `image` crate, as far as the canvases use it.
//!
//! Nothing here is proved: each contract restates what the buffer's own
//! source does, over [`raster_pixels`], [`raster_width`] and
//! [`raster_height`].

use vstd::prelude::*;
use crate::color::Rgba8;

verus! {

/// An 8-bit RGBA `image::ImageBuffer` backed by a `Vec<u8>`.
#[verifier::external_body]
pub struct Raster {
    img: image::ImageBuffer<image::Rgba<u8>, Vec<u8>>,
}

/// The pixels that a buffer holds, by `(x, y)`. Its domain is the buffer's
/// rectangle: `0 <= x < width`, `0 <= y < height`.
pub uninterp spec fn raster_pixels(img: Raster) -> Map<(int, int), (u8, u8, u8, u8)>;

/// The width that a buffer was made with.
pub uninterp spec fn raster_width(img: Raster) -> nat;

/// The height that a buffer was made with.
pub uninterp spec fn raster_height(img: Raster) -> nat;

/// A pixel as the four channel values that the buffer stores.
pub open spec fn channels(p: Rgba8) -> (u8, u8, u8, u8) {
    (p.r, p.g, p.b, p.a)
}

/// The pixel that four stored channel values stand for.
pub open spec fn pixel_of(c: (u8, u8, u8, u8)) -> Rgba8 {
    Rgba8 { r: c.0, g: c.1, b: c.2, a: c.3 }
}

/// Whether `(x, y)` lies in a rectangle of the given size.
pub open spec fn in_rect(width: nat, height: nat, x: int, y: int) -> bool {
    0 <= x < width && 0 <= y < height
}

/// `ImageBuffer::new`: a buffer of the given size with every channel of
/// every pixel zero. It panics when four bytes per pixel overflow what a
/// `Vec` can hold, so such sizes are left out.
#[verifier::external_body]
pub(crate) fn raster_new(width: u32, height: u32) -> (img: Raster)
    requires
        4 * width * height <= isize::MAX,
    ensures
        raster_width(img) == width,
        raster_height(img) == height,
        forall|x: int, y: int| #[trigger] raster_pixels(img).contains_key((x, y)) <==> in_rect(width as nat, height as nat, x, y),
        forall|x: int, y: int| in_rect(width as nat, height as nat, x, y) ==> #[trigger] raster_pixels(img)[(x, y)] == (0u8, 0u8, 0u8, 0u8),
{
    Raster { img: image::ImageBuffer::new(width, height) }
}

/// `ImageBuffer::width`.
#[verifier::external_body]
pub(crate) fn raster_get_width(img: &Raster) -> (w: u32)
    ensures
        w == raster_width(*img),
{
    img.img.width()
}

/// `ImageBuffer::height`.
#[verifier::external_body]
pub(crate) fn raster_get_height(img: &Raster) -> (h: u32)
    ensures
        h == raster_height(*img),
{
    img.img.height()
}

/// `ImageBuffer::get_pixel`: the pixel stored at `(x, y)`. It panics out
/// of bounds, so the position must lie in the buffer.
#[verifier::external_body]
pub(crate) fn raster_get(img: &Raster, x: u32, y: u32) -> (p: Rgba8)
    requires
        in_rect(raster_width(*img), raster_height(*img), x as int, y as int),
    ensures
        channels(p) == raster_pixels(*img)[(x as int, y as int)],
{
    let image::Rgba([r, g, b, a]) = *img.img.get_pixel(x, y);
    Rgba8 { r, g, b, a }
}

/// `ImageBuffer::put_pixel`: stores one pixel at `(x, y)` and leaves the
/// size and every other pixel as they were. It panics out of bounds, so
/// the position must lie in the buffer.
#[verifier::external_body]
pub(crate) fn raster_put(img: &mut Raster, x: u32, y: u32, p: Rgba8)
    requires
        in_rect(raster_width(*old(img)), raster_height(*old(img)), x as int, y as int),
    ensures
        raster_width(*final(img)) == raster_width(*old(img)),
        raster_height(*final(img)) == raster_height(*old(img)),
        raster_pixels(*final(img)) == raster_pixels(*old(img)).insert((x as int, y as int), channels(p)),
{
    img.img.put_pixel(x, y, image::Rgba([p.r, p.g, p.b, p.a]))
}

} // verus!
