//! Reduction of RGBA pixels to single-channel luminance.
use vstd::prelude::*;

use crate::grid::{cell_index, lemma_cell_index_bound};
use crate::raster::{
    gray_height, gray_new, gray_put_pixel, gray_samples, gray_to_vec, gray_width,
    image_dimensions, image_from_raw, image_get_pixel, image_height, image_samples, image_width,
    rgba_to_luma, GrayRaster,
};

verus! {

/// The weighted channel sum of one pixel before it is cut back to a byte:
/// the sRGB luma weights 0.2126, 0.7152 and 0.0722 in ten-thousandths,
/// rounded down.
pub open spec fn luma_value(r: int, g: int, b: int) -> int {
    (2126 * r + 7152 * g + 722 * b) / 10000
}

/// Luminance of one pixel on the 0..=255 scale. Alpha takes no part in it.
pub open spec fn luma(r: u8, g: u8, b: u8) -> u8 {
    luma_value(r as int, g as int, b as int) as u8
}

/// The luminance buffer of the first `pixels` pixels of an RGBA-interleaved
/// buffer: sample `i` is the luminance of bytes `4i`, `4i + 1` and `4i + 2`.
pub open spec fn gray_of(rgba: Seq<u8>, pixels: nat) -> Seq<u8> {
    Seq::new(pixels, |i: int| luma(rgba[4 * i], rgba[4 * i + 1], rgba[4 * i + 2]))
}

/// The weights add up to one, so luminance never leaves the byte range.
pub proof fn lemma_luma_in_range(r: u8, g: u8, b: u8)
    ensures
        0 <= luma_value(r as int, g as int, b as int) <= 255,
        luma(r, g, b) == luma_value(r as int, g as int, b as int),
{
}

/// The luminance buffer of an image holds one sample per pixel, and each
/// sample is the weighted sum of its pixel's colours, which fits a byte.
pub proof fn lemma_gray_of_shape(rgba: Seq<u8>, width: u32, height: u32, i: int)
    requires
        rgba.len() == 4 * (width * height),
        0 <= i < width * height,
    ensures
        gray_of(rgba, (width * height) as nat).len() == width * height,
        0 <= gray_of(rgba, (width * height) as nat)[i] <= 255,
        gray_of(rgba, (width * height) as nat)[i] == luma_value(
            rgba[4 * i] as int,
            rgba[4 * i + 1] as int,
            rgba[4 * i + 2] as int,
        ),
{
    lemma_luma_in_range(rgba[4 * i], rgba[4 * i + 1], rgba[4 * i + 2]);
}

/// A pixel whose three colour channels agree has that common value as its
/// luminance.
pub proof fn lemma_luma_of_gray(v: u8)
    ensures
        luma(v, v, v) == v,
{
}

/// Converts every pixel of `img` to luminance.
///
/// The result has the dimensions of `img`, and its sample for pixel `i` is
/// the luminance of that pixel's red, green and blue samples.
pub(crate) fn to_grayscale_rgba(img: &image::DynamicImage) -> (gray: GrayRaster)
    requires
        image_width(*img) * image_height(*img) <= isize::MAX,
    ensures
        gray_width(gray) == image_width(*img),
        gray_height(gray) == image_height(*img),
        gray_samples(gray) == gray_of(
            image_samples(*img),
            (image_width(*img) * image_height(*img)) as nat,
        ),
{
    let (width, height) = image_dimensions(img);
    let mut gray_img = gray_new(width, height);
    let ghost rgba = image_samples(*img);
    let ghost w = width as int;
    let ghost h = height as int;

    let mut y: u32 = 0;
    while y < height
        invariant
            y <= height,
            width == image_width(*img),
            height == image_height(*img),
            rgba == image_samples(*img),
            w == width as int,
            h == height as int,
            gray_width(gray_img) == width,
            gray_height(gray_img) == height,
            gray_samples(gray_img).len() == w * h,
            0 <= cell_index(w, 0, y as int) <= w * h,
            forall|k: int|
                0 <= k < cell_index(w, 0, y as int) ==> gray_samples(gray_img)[k] == luma(
                    rgba[4 * k],
                    rgba[4 * k + 1],
                    rgba[4 * k + 2],
                ),
        decreases height - y,
    {
        let mut x: u32 = 0;
        while x < width
            invariant
                y < height,
                x <= width,
                width == image_width(*img),
                height == image_height(*img),
                rgba == image_samples(*img),
                w == width as int,
                h == height as int,
                gray_width(gray_img) == width,
                gray_height(gray_img) == height,
                gray_samples(gray_img).len() == w * h,
                forall|k: int|
                    0 <= k < cell_index(w, x as int, y as int) ==> gray_samples(gray_img)[k]
                        == luma(rgba[4 * k], rgba[4 * k + 1], rgba[4 * k + 2]),
            decreases width - x,
        {
            proof {
                lemma_cell_index_bound(w, h, x as int, y as int);
            }
            let px = image_get_pixel(img, x, y);
            let pixel = rgba_to_luma(px);
            gray_put_pixel(&mut gray_img, x, y, pixel);
            x = x + 1;
        }
        proof {
            lemma_cell_index_bound(w, h, w, y as int);
        }
        y = y + 1;
    }
    assert(cell_index(w, 0, h) == w * h) by (nonlinear_arith);
    assert(gray_samples(gray_img) =~= gray_of(rgba, (w * h) as nat));
    gray_img
}

/// Luminance of an RGBA-interleaved pixel buffer.
///
/// For a buffer of four bytes per pixel the result holds one byte per
/// pixel, in the same row-major order: the luminance of that pixel.
pub fn grayscale(pixel_data: &[u8], width: u32, height: u32) -> (gray: Vec<u8>)
    requires
        pixel_data.len() == 4 * (width * height),
    ensures
        gray.len() == width * height,
        gray@ == gray_of(pixel_data@, (width * height) as nat),
{
    if width == 0 || height == 0 {
        return Vec::new();
    }
    assert(width <= width * height) by (nonlinear_arith)
        requires
            height >= 1,
    ;
    let data = vstd::slice::slice_to_vec(pixel_data);
    match image_from_raw(width, height, data) {
        Some(img) => {
            assert(image_samples(img) =~= pixel_data@);
            let gray = to_grayscale_rgba(&img);
            gray_to_vec(&gray)
        },
        None => vstd::pervasive::unreached(),
    }
}

} // verus!
