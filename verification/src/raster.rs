//! The boundary to the `image` crate.
//!
//! Pixel storage and colour conversion are done by `image`; nothing in this
//! module is proved. Each function below makes one call into the crate and
//! carries a contract that is believed, not checked. The contracts speak of an
//! image through two names: its size and its samples.
use vstd::prelude::*;

use crate::grayscale::luma;
use crate::grid::cell_index;

verus! {

/// `image::DynamicImage`, carried through verified code as an opaque value.
#[verifier::external_type_specification]
#[verifier::external_body]
pub struct ExDynamicImage(image::DynamicImage);

/// The width and the height that `GenericImageView::dimensions` reports for
/// `img`, in that order.
pub uninterp spec fn image_size(img: image::DynamicImage) -> (u32, u32);

/// The channel values that `GenericImageView::get_pixel` reports for `img`:
/// red, green, blue, alpha of each pixel, row after row from the top left.
pub uninterp spec fn image_samples(img: image::DynamicImage) -> Seq<u8>;

/// A single-channel 8-bit image: an `image::GrayImage` behind a private field.
#[verifier::external_body]
pub struct GrayRaster {
    img: image::GrayImage,
}

/// The width and the height of the `GrayImage` held by `img`, in that order.
pub uninterp spec fn gray_size(img: GrayRaster) -> (u32, u32);

/// The bytes of the container of the `GrayImage` held by `img`, one per pixel,
/// row after row from the top left.
pub uninterp spec fn gray_samples(img: GrayRaster) -> Seq<u8>;

/// Width of `img` in pixels.
pub open spec fn image_width(img: image::DynamicImage) -> u32 {
    image_size(img).0
}

/// Height of `img` in pixels.
pub open spec fn image_height(img: image::DynamicImage) -> u32 {
    image_size(img).1
}

/// Width of `img` in pixels.
pub open spec fn gray_width(img: GrayRaster) -> u32 {
    gray_size(img).0
}

/// Height of `img` in pixels.
pub open spec fn gray_height(img: GrayRaster) -> u32 {
    gray_size(img).1
}

/// Calls `ImageBuffer::from_raw` for RGBA pixels and wraps the buffer as
/// `DynamicImage::ImageRgba8`.
///
/// Believed: the call succeeds exactly when the bytes of one row can be
/// counted in a `usize` and `data` holds at least four bytes per pixel; the
/// image then has the given dimensions, and the pixels it reports are the
/// leading bytes of `data`, unchanged.
#[verifier::external_body]
pub(crate) fn image_from_raw(width: u32, height: u32, data: Vec<u8>) -> (out: Option<
    image::DynamicImage,
>)
    ensures
        out.is_some() <==> (4 * width <= usize::MAX && 4 * (width * height) <= data.len()),
        out matches Some(img) ==> {
            &&& image_size(img) == (width, height)
            &&& image_samples(img) == data@.subrange(0, 4 * (width * height))
        },
{
    image::RgbaImage::from_raw(width, height, data).map(image::DynamicImage::ImageRgba8)
}

/// Calls `GenericImageView::dimensions` on a `DynamicImage`.
///
/// Believed: the pair returned is the image's width and height.
#[verifier::external_body]
pub(crate) fn image_dimensions(img: &image::DynamicImage) -> (dims: (u32, u32))
    ensures
        dims == image_size(*img),
{
    image::GenericImageView::dimensions(img)
}

/// Calls `GenericImageView::get_pixel` on a `DynamicImage` and hands out the
/// four channels of the pixel.
///
/// Believed: inside the bounds the call does not panic and returns the four
/// samples of pixel `(x, y)`.
#[verifier::external_body]
pub(crate) fn image_get_pixel(img: &image::DynamicImage, x: u32, y: u32) -> (px: [u8; 4])
    requires
        x < image_width(*img),
        y < image_height(*img),
    ensures
        forall|c: int|
            0 <= c < 4 ==> px[c] == image_samples(*img)[4 * cell_index(
                image_width(*img) as int,
                x as int,
                y as int,
            ) + c],
{
    image::GenericImageView::get_pixel(img, x, y).0
}

/// Calls `Pixel::to_luma` on an `Rgba<u8>` pixel.
///
/// Believed: the result is the integer quotient
/// `(2126 r + 7152 g + 722 b) / 10000`; alpha is ignored.
#[verifier::external_body]
pub(crate) fn rgba_to_luma(px: [u8; 4]) -> (l: u8)
    ensures
        l == luma(px[0], px[1], px[2]),
{
    image::Pixel::to_luma(&image::Rgba(px)).0[0]
}

/// Calls `ImageBuffer::new` for single-channel 8-bit pixels.
///
/// Believed: for a pixel count that a vector can hold, the call does not
/// panic and returns an image of the given dimensions whose samples are all
/// zero.
#[verifier::external_body]
pub(crate) fn gray_new(width: u32, height: u32) -> (img: GrayRaster)
    requires
        width * height <= isize::MAX,
    ensures
        gray_size(img) == (width, height),
        gray_samples(img) == Seq::new((width * height) as nat, |i: int| 0u8),
{
    GrayRaster { img: image::GrayImage::new(width, height) }
}

/// Calls `ImageBuffer::from_raw` for single-channel 8-bit pixels.
///
/// Believed: the call succeeds exactly when `data` holds at least one byte
/// per pixel; the image then has the given dimensions and `data` as its
/// samples.
#[verifier::external_body]
pub(crate) fn gray_from_raw(width: u32, height: u32, data: Vec<u8>) -> (out: Option<GrayRaster>)
    ensures
        out.is_some() <==> width * height <= data.len(),
        out matches Some(img) ==> {
            &&& gray_size(img) == (width, height)
            &&& gray_samples(img) == data@
        },
{
    match image::GrayImage::from_raw(width, height, data) {
        Some(img) => Some(GrayRaster { img }),
        None => None,
    }
}

/// Calls `ImageBuffer::get_pixel` on a `GrayImage` and hands out the pixel's
/// only channel.
///
/// Believed: inside the bounds the call does not panic and returns the sample
/// at `y * width + x`.
#[verifier::external_body]
pub(crate) fn gray_get_pixel(img: &GrayRaster, x: u32, y: u32) -> (v: u8)
    requires
        x < gray_width(*img),
        y < gray_height(*img),
    ensures
        v == gray_samples(*img)[cell_index(gray_width(*img) as int, x as int, y as int)],
{
    img.img.get_pixel(x, y).0[0]
}

/// Calls `ImageBuffer::put_pixel` on a `GrayImage` with the pixel `Luma([v])`.
///
/// Believed: inside the bounds the call does not panic, replaces the sample
/// at `y * width + x` by `v`, and leaves the dimensions and every other
/// sample as they were.
#[verifier::external_body]
pub(crate) fn gray_put_pixel(img: &mut GrayRaster, x: u32, y: u32, v: u8)
    requires
        x < gray_width(*old(img)),
        y < gray_height(*old(img)),
    ensures
        gray_size(*final(img)) == gray_size(*old(img)),
        gray_samples(*final(img)) == gray_samples(*old(img)).update(
            cell_index(gray_width(*old(img)) as int, x as int, y as int),
            v,
        ),
{
    img.img.put_pixel(x, y, image::Luma([v]));
}

/// Calls `to_vec` on the sample slice that a `GrayImage` dereferences to.
///
/// Believed: the vector returned holds the image's samples in order.
#[verifier::external_body]
pub(crate) fn gray_to_vec(img: &GrayRaster) -> (out: Vec<u8>)
    ensures
        out@ == gray_samples(*img),
{
    img.img.to_vec()
}

} // verus!
