//! Row-major addressing of the pixels of an image.
use vstd::prelude::*;

verus! {

/// Position of pixel `(x, y)` in the samples of a single-channel image of
/// width `width`, rows stored one after another from the top.
pub open spec fn cell_index(width: int, x: int, y: int) -> int {
    y * width + x
}

/// Row-major positions stay inside the buffer: pixel `(x, y)` of a
/// `width` by `height` image sits below `width * height`, and the end of
/// row `y` is the start of row `y + 1`.
pub proof fn lemma_cell_index_bound(width: int, height: int, x: int, y: int)
    requires
        0 <= x <= width,
        0 <= y < height,
    ensures
        0 <= cell_index(width, 0, y) <= cell_index(width, x, y) <= cell_index(width, 0, y + 1),
        x < width ==> cell_index(width, x, y) < width * height,
        cell_index(width, width, y) == cell_index(width, 0, y + 1),
        cell_index(width, 0, y + 1) <= width * height,
{
    assert(y * width >= 0) by (nonlinear_arith)
        requires
            y >= 0,
            width >= 0,
    ;
    assert((y + 1) * width == y * width + width) by (nonlinear_arith);
    assert((y + 1) * width <= height * width) by (nonlinear_arith)
        requires
            y + 1 <= height,
            width >= 0,
    ;
    assert(height * width == width * height) by (nonlinear_arith);
}

/// A position determines its pixel: column and row of pixel `(x, y)` are the
/// remainder and the quotient of its position by the width.
pub proof fn lemma_cell_coordinates(width: int, x: int, y: int)
    requires
        0 <= x < width,
    ensures
        cell_index(width, x, y) % width == x,
        cell_index(width, x, y) / width == y,
{
    vstd::arithmetic::div_mod::lemma_fundamental_div_mod_converse(
        cell_index(width, x, y),
        width,
        y,
        x,
    );
}

/// Every position below `width * height` is the position of exactly one
/// pixel inside the image.
pub proof fn lemma_position_in_image(width: int, height: int, k: int)
    requires
        0 <= k < width * height,
        0 <= width,
        0 <= height,
    ensures
        0 <= k % width < width,
        0 <= k / width < height,
        cell_index(width, k % width, k / width) == k,
{
    assert(width > 0) by (nonlinear_arith)
        requires
            0 <= k < width * height,
            0 <= width,
    ;
    vstd::arithmetic::div_mod::lemma_fundamental_div_mod(k, width);
    vstd::arithmetic::div_mod::lemma_mod_pos_bound(k, width);
    let q = k / width;
    let r = k % width;
    assert(width * q == q * width) by (nonlinear_arith);
    assert(0 <= q < height) by (nonlinear_arith)
        requires
            k == q * width + r,
            0 <= r < width,
            0 <= k < width * height,
    ;
}

} // verus!
