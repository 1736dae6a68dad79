//! Small helpers shared by the buffer and window types.

use vstd::prelude::*;

use crate::Point;

verus! {

/// The pixel count of a `width` by `height` image, as a size. The product
/// must fit in the platform size type; every well-formed buffer guarantees
/// this for its own dimensions.
pub fn checked_size(width: u32, height: u32) -> (r: usize)
    requires
        width * height <= usize::MAX,
    ensures
        r == width * height,
{
    proof {
        assert(width * height == (width as usize) * (height as usize)) by (nonlinear_arith);
    }
    match (width as usize).checked_mul(height as usize) {
        Some(size) => size,
        None => {
            proof {
                assert(false);
            }
            0
        },
    }
}

/// The row-major index of a point in storage of the given row width:
/// `point.1 * width + point.0`.
pub fn index_point(point: Point, width: u32) -> (r: usize)
    requires
        point.1 * width + point.0 <= usize::MAX,
    ensures
        r == point.1 * width + point.0,
{
    proof {
        assert((point.1 as usize) * (width as usize) == point.1 * width) by (nonlinear_arith);
    }
    (point.1 as usize) * (width as usize) + (point.0 as usize)
}

/// A point strictly inside a `width` by `height` grid has a row-major index
/// strictly below `width * height`.
pub(crate) proof fn lemma_row_major_index_bounds(x: int, y: int, width: int, height: int)
    requires
        0 <= x < width,
        0 <= y < height,
    ensures
        0 <= y * width + x < width * height,
{
    assert(y * width + x < width * height) by (nonlinear_arith)
        requires
            0 <= x < width,
            0 <= y < height,
    ;
    assert(0 <= y * width) by (nonlinear_arith)
        requires
            0 <= y,
            0 <= width,
    ;
}

/// Multiplication of non-negative integers is monotone in both factors.
pub(crate) proof fn lemma_mul_mono(a: int, b: int, c: int, d: int)
    requires
        0 <= a <= c,
        0 <= b <= d,
    ensures
        a * b <= c * d,
{
    assert(a * b <= c * d) by (nonlinear_arith)
        requires
            0 <= a <= c,
            0 <= b <= d,
    ;
}

/// Stepping a row-major cursor one position forward, wrapping at the end of
/// each row, decreases the count of positions at or after the cursor by one.
pub(crate) proof fn lemma_cursor_advance(x: int, y: int, w: int, h: int)
    requires
        0 <= x < w,
        0 <= y < h,
    ensures
        (h - y) * w - x - 1 == if x + 1 < w {
            (h - y) * w - (x + 1)
        } else {
            (h - (y + 1)) * w
        },
        x + 1 == w && y + 1 == h ==> (h - (y + 1)) * w == 0,
        (h - y) * w - x >= 1,
{
    assert((h - y) * w == (h - y - 1) * w + w) by (nonlinear_arith);
    assert((h - y - 1) * w >= 0) by (nonlinear_arith)
        requires
            y < h,
            w >= 0,
    ;
}

/// The count of positions at or after an in-window cursor lies between one
/// row's worth and the whole grid, itself no larger than an enclosing grid.
pub(crate) proof fn lemma_cursor_remaining_bounds(x: int, y: int, w: int, h: int, bw: int, bh: int)
    requires
        0 <= x < w,
        0 <= y < h,
        w <= bw,
        h <= bh,
    ensures
        w <= (h - y) * w,
        (h - y) * w <= bw * bh,
{
    assert(w <= (h - y) * w) by (nonlinear_arith)
        requires
            0 <= y < h,
            0 <= w,
    ;
    assert((h - y) * w <= bw * bh) by (nonlinear_arith)
        requires
            0 < h - y <= bh,
            0 <= w <= bw,
    ;
}

/// A row-major index in a row strictly above row `y` lies below the start of
/// row `y`.
pub(crate) proof fn lemma_row_major_strict_rows(i: int, j: int, y: int, width: int)
    requires
        0 <= i < width,
        0 <= j < y,
    ensures
        j * width + i < y * width,
{
    assert(j * width + i < y * width) by (nonlinear_arith)
        requires
            0 <= i < width,
            0 <= j < y,
    ;
}

/// Distinct points of one grid have distinct row-major indices.
pub(crate) proof fn lemma_row_major_index_injective(
    x1: int,
    y1: int,
    x2: int,
    y2: int,
    width: int,
)
    requires
        0 <= x1 < width,
        0 <= x2 < width,
        0 <= y1,
        0 <= y2,
        (x1, y1) != (x2, y2),
    ensures
        y1 * width + x1 != y2 * width + x2,
{
    if y1 == y2 {
    } else {
        assert(y1 * width + x1 != y2 * width + x2) by (nonlinear_arith)
            requires
                0 <= x1 < width,
                0 <= x2 < width,
                y1 != y2,
        ;
    }
}

} // verus!
