//! The Local Binary Pattern transform of a luminance image.
use vstd::prelude::*;

use crate::grayscale::{gray_of, to_grayscale_rgba};
use crate::grid::{
    cell_index, lemma_cell_coordinates, lemma_cell_index_bound, lemma_position_in_image,
};
use crate::raster::{
    gray_from_raw, gray_get_pixel, gray_height, gray_new, gray_put_pixel, gray_samples,
    gray_to_vec, gray_width, image_from_raw, image_samples, GrayRaster,
};

verus! {

/// Column offset of neighbour `i`. The eight neighbours are numbered
/// clockwise from the top left: `(-1,-1)`, `(0,-1)`, `(1,-1)`, `(1,0)`,
/// `(1,1)`, `(0,1)`, `(-1,1)`, `(-1,0)`.
pub open spec fn neighbor_dx(i: int) -> int {
    if i == 0 || i == 6 || i == 7 {
        -1
    } else if i == 1 || i == 5 {
        0
    } else {
        1
    }
}

/// Row offset of neighbour `i`.
pub open spec fn neighbor_dy(i: int) -> int {
    if i == 0 || i == 1 || i == 2 {
        -1
    } else if i == 3 || i == 7 {
        0
    } else {
        1
    }
}

/// Whether neighbour `i` of pixel `(x, y)` is at least as bright as the
/// pixel itself. A tie counts.
pub open spec fn neighbor_at_least(gray: Seq<u8>, width: int, x: int, y: int, i: int) -> bool {
    gray[cell_index(width, x + neighbor_dx(i), y + neighbor_dy(i))] >= gray[cell_index(
        width,
        x,
        y,
    )]
}

/// The value of the bit that neighbour `i` owns: bit `7 - i`.
pub open spec fn bit_weight(i: int) -> int {
    if i == 0 {
        128
    } else if i == 1 {
        64
    } else if i == 2 {
        32
    } else if i == 3 {
        16
    } else if i == 4 {
        8
    } else if i == 5 {
        4
    } else if i == 6 {
        2
    } else {
        1
    }
}

/// The code of pixel `(x, y)` as far as its first `n` neighbours decide it.
pub open spec fn code_prefix(gray: Seq<u8>, width: int, x: int, y: int, n: int) -> int
    decreases n,
{
    if n <= 0 {
        0
    } else {
        code_prefix(gray, width, x, y, n - 1) + if neighbor_at_least(gray, width, x, y, n - 1) {
            bit_weight(n - 1)
        } else {
            0
        }
    }
}

/// The code of pixel `(x, y)`: bit `7 - i` is set exactly when neighbour
/// `i` is at least as bright as the pixel.
pub open spec fn lbp_code(gray: Seq<u8>, width: int, x: int, y: int) -> u8 {
    code_prefix(gray, width, x, y, 8) as u8
}

/// Whether all eight neighbours of `(x, y)` lie inside the image.
pub open spec fn is_interior(width: int, height: int, x: int, y: int) -> bool {
    1 <= x <= width - 2 && 1 <= y <= height - 2
}

/// The output byte at position `k`: the code of the pixel there if it is an
/// interior pixel, zero on the border.
pub open spec fn lbp_cell(gray: Seq<u8>, width: int, height: int, k: int) -> u8 {
    if is_interior(width, height, k % width, k / width) {
        lbp_code(gray, width, k % width, k / width)
    } else {
        0
    }
}

/// The transform of a `width` by `height` luminance buffer.
pub open spec fn lbp_of(gray: Seq<u8>, width: nat, height: nat) -> Seq<u8> {
    Seq::new(width * height, |k: int| lbp_cell(gray, width as int, height as int, k))
}

/// The partial code after `n` neighbours uses only the `n` highest bits.
pub proof fn lemma_code_prefix_bounds(gray: Seq<u8>, width: int, x: int, y: int, n: int)
    requires
        0 <= n <= 8,
    ensures
        0 <= code_prefix(gray, width, x, y, n) <= 255,
        n >= 1 ==> code_prefix(gray, width, x, y, n) <= 256 - bit_weight(n - 1),
    decreases n,
{
    if n > 0 {
        lemma_code_prefix_bounds(gray, width, x, y, n - 1);
    }
}

/// The transform holds one byte per pixel, and a pixel in the first or last
/// column or row has the byte zero.
pub proof fn lemma_lbp_border_is_zero(gray: Seq<u8>, width: nat, height: nat, x: int, y: int)
    requires
        0 <= x < width,
        0 <= y < height,
        x == 0 || x == width - 1 || y == 0 || y == height - 1,
    ensures
        lbp_of(gray, width, height).len() == width * height,
        0 <= cell_index(width as int, x, y) < width * height,
        lbp_of(gray, width, height)[cell_index(width as int, x, y)] == 0,
{
    lemma_cell_index_bound(width as int, height as int, x, y);
    lemma_cell_coordinates(width as int, x, y);
}

/// An image narrower or lower than three pixels has no interior pixel: every
/// byte of its transform is zero.
pub proof fn lemma_lbp_of_degenerate_image(gray: Seq<u8>, width: nat, height: nat)
    requires
        width < 3 || height < 3,
    ensures
        lbp_of(gray, width, height) == Seq::new(width * height, |k: int| 0u8),
{
    assert forall|k: int| 0 <= k < width * height implies lbp_of(gray, width, height)[k]
        == 0 by {
        lemma_position_in_image(width as int, height as int, k);
    }
    assert(lbp_of(gray, width, height) =~= Seq::new(width * height, |k: int| 0u8));
}

/// The byte of an interior pixel is the code of that pixel.
pub proof fn lemma_lbp_interior_is_code(gray: Seq<u8>, width: nat, height: nat, x: int, y: int)
    requires
        is_interior(width as int, height as int, x, y),
    ensures
        0 <= cell_index(width as int, x, y) < width * height,
        lbp_of(gray, width, height)[cell_index(width as int, x, y)] == lbp_code(
            gray,
            width as int,
            x,
            y,
        ),
{
    lemma_cell_index_bound(width as int, height as int, x, y);
    lemma_cell_coordinates(width as int, x, y);
}

/// Bit `7 - i` of a code is set exactly when neighbour `i` is at least as
/// bright as the pixel.
pub proof fn lemma_lbp_code_bits(gray: Seq<u8>, width: int, x: int, y: int, i: int)
    requires
        0 <= i < 8,
    ensures
        (lbp_code(gray, width, x, y) >> ((7 - i) as u8)) & 1 == 1 <==> neighbor_at_least(
            gray,
            width,
            x,
            y,
            i,
        ),
{
    reveal_with_fuel(code_prefix, 9);
    let t0: u8 = if neighbor_at_least(gray, width, x, y, 0) { 128 } else { 0 };
    let t1: u8 = if neighbor_at_least(gray, width, x, y, 1) { 64 } else { 0 };
    let t2: u8 = if neighbor_at_least(gray, width, x, y, 2) { 32 } else { 0 };
    let t3: u8 = if neighbor_at_least(gray, width, x, y, 3) { 16 } else { 0 };
    let t4: u8 = if neighbor_at_least(gray, width, x, y, 4) { 8 } else { 0 };
    let t5: u8 = if neighbor_at_least(gray, width, x, y, 5) { 4 } else { 0 };
    let t6: u8 = if neighbor_at_least(gray, width, x, y, 6) { 2 } else { 0 };
    let t7: u8 = if neighbor_at_least(gray, width, x, y, 7) { 1 } else { 0 };
    let code = lbp_code(gray, width, x, y);
    assert(code == t0 + t1 + t2 + t3 + t4 + t5 + t6 + t7);
    assert({
        &&& ((code >> 7u8) & 1 == 1 <==> t0 == 128)
        &&& ((code >> 6u8) & 1 == 1 <==> t1 == 64)
        &&& ((code >> 5u8) & 1 == 1 <==> t2 == 32)
        &&& ((code >> 4u8) & 1 == 1 <==> t3 == 16)
        &&& ((code >> 3u8) & 1 == 1 <==> t4 == 8)
        &&& ((code >> 2u8) & 1 == 1 <==> t5 == 4)
        &&& ((code >> 1u8) & 1 == 1 <==> t6 == 2)
        &&& ((code >> 0u8) & 1 == 1 <==> t7 == 1)
    }) by (bit_vector)
        requires
            t0 == 0 || t0 == 128,
            t1 == 0 || t1 == 64,
            t2 == 0 || t2 == 32,
            t3 == 0 || t3 == 16,
            t4 == 0 || t4 == 8,
            t5 == 0 || t5 == 4,
            t6 == 0 || t6 == 2,
            t7 == 0 || t7 == 1,
            code == t0 + t1 + t2 + t3 + t4 + t5 + t6 + t7,
    ;
}

/// A code depends on nothing but the pixel and its eight neighbours: two
/// buffers that agree on that three by three block give the same code.
pub proof fn lemma_lbp_code_is_local(a: Seq<u8>, b: Seq<u8>, width: int, x: int, y: int)
    requires
        forall|cx: int, cy: int|
            x - 1 <= cx <= x + 1 && y - 1 <= cy <= y + 1 ==> a[#[trigger] cell_index(
                width,
                cx,
                cy,
            )] == b[cell_index(width, cx, cy)],
    ensures
        lbp_code(a, width, x, y) == lbp_code(b, width, x, y),
{
    reveal_with_fuel(code_prefix, 9);
    assert(a[cell_index(width, x, y)] == b[cell_index(width, x, y)]);
    assert forall|i: int| 0 <= i < 8 implies neighbor_at_least(a, width, x, y, i)
        == neighbor_at_least(b, width, x, y, i) by {
        let j = cell_index(width, x + neighbor_dx(i), y + neighbor_dy(i));
        assert(a[j] == b[j]);
    }
}

/// Setting bit `7 - k` of a byte whose bits `7 - k` and below are clear adds
/// the bit's weight and leaves the bits below it clear.
proof fn lemma_set_bit(acc: u8, k: u8)
    by (bit_vector)
    requires
        k < 8,
        acc & (0xffu8 >> k) == 0,
    ensures
        (acc | (1u8 << ((7u8 - k) as u8))) == acc + (1u8 << ((7u8 - k) as u8)),
        (acc | (1u8 << ((7u8 - k) as u8))) & (0xffu8 >> ((k + 1) as u8)) == 0,
        acc & (0xffu8 >> ((k + 1) as u8)) == 0,
{
}

/// The shifted one that the transform ors in for neighbour `k` is that
/// neighbour's weight.
proof fn lemma_shift_is_weight(k: u8)
    requires
        k < 8,
    ensures
        (1u8 << ((7u8 - k) as u8)) == bit_weight(k as int),
{
    assert(1u8 << 7u8 == 128 && 1u8 << 6u8 == 64 && 1u8 << 5u8 == 32 && 1u8 << 4u8 == 16 && 1u8
        << 3u8 == 8 && 1u8 << 2u8 == 4 && 1u8 << 1u8 == 2 && 1u8 << 0u8 == 1) by (bit_vector);
}

/// The code of one interior pixel.
fn lbp_at(gray_image: &GrayRaster, x: u32, y: u32) -> (pattern: u8)
    requires
        1 <= x,
        x + 1 < gray_width(*gray_image),
        1 <= y,
        y + 1 < gray_height(*gray_image),
    ensures
        pattern == lbp_code(
            gray_samples(*gray_image),
            gray_width(*gray_image) as int,
            x as int,
            y as int,
        ),
{
    let directions: [(i32, i32); 8] = [
        (-1, -1),
        (0, -1),
        (1, -1),
        (1, 0),
        (1, 1),
        (0, 1),
        (-1, 1),
        (-1, 0),
    ];
    let ghost gray = gray_samples(*gray_image);
    let ghost w = gray_width(*gray_image) as int;
    let center_pixel = gray_get_pixel(gray_image, x, y);
    let mut acc: u8 = 0;
    let mut idx: u8 = 0;
    assert(acc & (0xffu8 >> idx) == 0) by (bit_vector)
        requires
            acc == 0,
    ;
    while idx < 8
        invariant
            idx <= 8,
            1 <= x,
            x + 1 < gray_width(*gray_image),
            1 <= y,
            y + 1 < gray_height(*gray_image),
            gray == gray_samples(*gray_image),
            w == gray_width(*gray_image) as int,
            center_pixel == gray[cell_index(w, x as int, y as int)],
            forall|i: int| 0 <= i < 8 ==> directions[i].0 == neighbor_dx(i),
            forall|i: int| 0 <= i < 8 ==> directions[i].1 == neighbor_dy(i),
            acc & (0xffu8 >> idx) == 0,
            acc == code_prefix(gray, w, x as int, y as int, idx as int),
        decreases 8 - idx,
    {
        let (dx, dy) = directions[idx as usize];
        assert(dx == neighbor_dx(idx as int));
        assert(dy == neighbor_dy(idx as int));
        let nx = (x as i64 + dx as i64) as u32;
        let ny = (y as i64 + dy as i64) as u32;
        let neighbor_pixel = gray_get_pixel(gray_image, nx, ny);
        proof {
            lemma_set_bit(acc, idx);
            lemma_shift_is_weight(idx);
        }
        if neighbor_pixel >= center_pixel {
            acc = acc | (1u8 << (7 - idx));
        }
        idx = idx + 1;
    }
    proof {
        lemma_code_prefix_bounds(gray, w, x as int, y as int, 8);
    }
    acc
}

/// Positions in the top row, and the first position of the second row, are
/// border positions.
proof fn lemma_leading_cells_are_border(gray: Seq<u8>, width: int, height: int, k: int)
    requires
        3 <= width,
        0 <= k <= width,
    ensures
        lbp_cell(gray, width, height, k) == 0,
{
    if k < width {
        lemma_cell_coordinates(width, k, 0);
    } else {
        lemma_cell_coordinates(width, 0, 1);
    }
}

/// Positions from the second pixel of the bottom row onwards are border
/// positions.
proof fn lemma_trailing_cells_are_border(gray: Seq<u8>, width: int, height: int, k: int)
    requires
        3 <= width,
        3 <= height,
        cell_index(width, 1, height - 1) <= k < width * height,
    ensures
        lbp_cell(gray, width, height, k) == 0,
{
    lemma_position_in_image(width, height, k);
    let q = k / width;
    let r = k % width;
    assert(q >= height - 1) by (nonlinear_arith)
        requires
            k == q * width + r,
            0 <= r < width,
            (height - 1) * width + 1 <= k,
    ;
}

/// Computes the code of every interior pixel of `gray_image` into a fresh
/// image of the same dimensions; border pixels stay zero.
pub(crate) fn transform_lbp_image(gray_image: &GrayRaster, width: u32, height: u32) -> (lbp_img:
    GrayRaster)
    requires
        gray_width(*gray_image) == width,
        gray_height(*gray_image) == height,
        width * height <= isize::MAX,
    ensures
        gray_width(lbp_img) == width,
        gray_height(lbp_img) == height,
        gray_samples(lbp_img) == lbp_of(gray_samples(*gray_image), width as nat, height as nat),
{
    let mut lbp_img = gray_new(width, height);
    let ghost gray = gray_samples(*gray_image);
    let ghost w = width as int;
    let ghost h = height as int;
    if width < 3 || height < 3 {
        assert(gray_samples(lbp_img) =~= lbp_of(gray, width as nat, height as nat));
        return lbp_img;
    }
    proof {
        lemma_cell_index_bound(w, h, 1, 1);
        assert forall|k: int| 0 <= k < cell_index(w, 1, 1) implies gray_samples(lbp_img)[k]
            == lbp_cell(gray, w, h, k) by {
            lemma_leading_cells_are_border(gray, w, h, k);
        }
    }
    let mut y: u32 = 1;
    while y < height - 1
        invariant
            3 <= width,
            3 <= height,
            1 <= y <= height - 1,
            gray_width(*gray_image) == width,
            gray_height(*gray_image) == height,
            gray == gray_samples(*gray_image),
            w == width as int,
            h == height as int,
            gray_width(lbp_img) == width,
            gray_height(lbp_img) == height,
            gray_samples(lbp_img).len() == w * h,
            0 <= cell_index(w, 1, y as int) < w * h,
            forall|k: int|
                0 <= k < cell_index(w, 1, y as int) ==> gray_samples(lbp_img)[k] == lbp_cell(
                    gray,
                    w,
                    h,
                    k,
                ),
            forall|k: int|
                cell_index(w, 1, y as int) <= k < w * h ==> gray_samples(lbp_img)[k] == 0,
        decreases height - y,
    {
        let mut x: u32 = 1;
        while x < width - 1
            invariant
                3 <= width,
                3 <= height,
                1 <= y < height - 1,
                1 <= x <= width - 1,
                gray_width(*gray_image) == width,
                gray_height(*gray_image) == height,
                gray == gray_samples(*gray_image),
                w == width as int,
                h == height as int,
                gray_width(lbp_img) == width,
                gray_height(lbp_img) == height,
                gray_samples(lbp_img).len() == w * h,
                forall|k: int|
                    0 <= k < cell_index(w, x as int, y as int) ==> gray_samples(lbp_img)[k]
                        == lbp_cell(gray, w, h, k),
                forall|k: int|
                    cell_index(w, x as int, y as int) <= k < w * h ==> gray_samples(lbp_img)[k]
                        == 0,
            decreases width - x,
        {
            let pattern = lbp_at(gray_image, x, y);
            proof {
                lemma_cell_index_bound(w, h, x as int, y as int);
                lemma_cell_coordinates(w, x as int, y as int);
            }
            gray_put_pixel(&mut lbp_img, x, y, pattern);
            x = x + 1;
        }
        proof {
            lemma_cell_index_bound(w, h, w - 1, y as int);
            lemma_cell_index_bound(w, h, 1, y + 1);
            lemma_cell_coordinates(w, w - 1, y as int);
            lemma_cell_coordinates(w, 0, y + 1);
        }
        y = y + 1;
    }
    proof {
        assert forall|k: int| 0 <= k < w * h implies gray_samples(lbp_img)[k] == lbp_cell(
            gray,
            w,
            h,
            k,
        ) by {
            if k >= cell_index(w, 1, h - 1) {
                lemma_trailing_cells_are_border(gray, w, h, k);
            }
        }
        assert(gray_samples(lbp_img) =~= lbp_of(gray, width as nat, height as nat));
    }
    lbp_img
}

/// The Local Binary Pattern transform of a luminance buffer.
///
/// The result has one byte per pixel. The byte of an interior pixel has bit
/// `7 - i` set exactly when neighbour `i`, counted clockwise from the top
/// left, is at least as bright as the pixel; the byte of a border pixel is
/// zero. `gray` is only read.
pub fn lbp(gray: &[u8], width: u32, height: u32) -> (out: Vec<u8>)
    requires
        gray.len() == width * height,
        gray.len() <= isize::MAX,
    ensures
        out.len() == width * height,
        out@ == lbp_of(gray@, width as nat, height as nat),
{
    let data = vstd::slice::slice_to_vec(gray);
    match gray_from_raw(width, height, data) {
        Some(gray_image) => {
            let lbp_img = transform_lbp_image(&gray_image, width, height);
            gray_to_vec(&lbp_img)
        },
        None => vstd::pervasive::unreached(),
    }
}

/// Luminance reduction followed by the Local Binary Pattern transform.
///
/// `pixel_data` is RGBA-interleaved, four bytes per pixel, row after row.
/// The result holds one code per pixel in the same order.
pub fn local_binary_pattern(pixel_data: Vec<u8>, width: u32, height: u32) -> (out: Vec<u8>)
    requires
        pixel_data.len() == 4 * (width * height),
    ensures
        out.len() == width * height,
        out@ == lbp_of(
            gray_of(pixel_data@, (width * height) as nat),
            width as nat,
            height as nat,
        ),
{
    if width == 0 || height == 0 {
        return Vec::new();
    }
    assert(width <= width * height) by (nonlinear_arith)
        requires
            height >= 1,
    ;
    let ghost rgba = pixel_data@;
    match image_from_raw(width, height, pixel_data) {
        Some(img) => {
            assert(image_samples(img) =~= rgba);
            let gray_image = to_grayscale_rgba(&img);
            let lbp_img = transform_lbp_image(&gray_image, width, height);
            gray_to_vec(&lbp_img)
        },
        None => vstd::pervasive::unreached(),
    }
}

} // verus!
