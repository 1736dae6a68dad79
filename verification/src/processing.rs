//! Whole-window transforms built on the mutable-window primitives.
//!
//! The flips work pairwise: for each symmetric pair of positions they obtain
//! two disjoint single-pixel windows from the multi-window constructor and
//! swap their contents. Resampling parameters live here as well: the filter
//! selection for resizing is the [`ResizeFilter`] enum.

use vstd::prelude::*;

use crate::buffer::ImgBuf;
use crate::view::ImgBufViewMut;
use crate::Rect;

verus! {

/// Filter type to use when resizing an image.
#[derive(Debug, Clone, Copy, PartialEq, Eq, Structural)]
pub enum ResizeFilter {
    Box,
    Triangle,
    BSpline,
    Mitchell,
    CatmullRom,
    Lanczos2,
    Lanczos3,
}

/// Flips the given window of `buf` horizontally: afterwards the window's
/// pixel at `(x, y)` holds what its pixel at `(width - 1 - x, y)` held
/// before, and everything outside the window is untouched.
pub fn flip_horizontal<P: Copy>(view: &ImgBufViewMut, buf: &mut ImgBuf<P>)
    requires
        view.valid_for(*old(buf)),
    ensures
        view.valid_for(*final(buf)),
        final(buf).spec_dimensions() == old(buf).spec_dimensions(),
        forall|x: int, y: int| 0 <= x < view.spec_width() && 0 <= y < view.spec_height()
            ==> #[trigger] view.pix_of(*final(buf), x, y)
                == view.pix_of(*old(buf), view.spec_width() - 1 - x, y),
        forall|x: int, y: int|
            0 <= x < old(buf).spec_width() && 0 <= y < old(buf).spec_height()
                && !view.region_contains(x, y)
                ==> #[trigger] final(buf).pix(x, y) == old(buf).pix(x, y),
{
    let width = view.dimensions().0;
    let height = view.dimensions().1;
    let ghost orig = *buf;
    let mut y: u32 = 0;
    while y < height
        invariant
            y <= height,
            width == view.spec_width(),
            height == view.spec_height(),
            view.valid_for(*buf),
            orig == *old(buf),
            buf.spec_dimensions() == orig.spec_dimensions(),
            forall|i: int, j: int| 0 <= i < width && 0 <= j < y
                ==> #[trigger] view.pix_of(*buf, i, j)
                    == view.pix_of(orig, width - 1 - i, j),
            forall|i: int, j: int| 0 <= i < width && y <= j < height
                ==> #[trigger] view.pix_of(*buf, i, j) == view.pix_of(orig, i, j),
            forall|x2: int, j: int|
                0 <= x2 < orig.spec_width() && 0 <= j < orig.spec_height()
                    && !view.region_contains(x2, j)
                    ==> #[trigger] buf.pix(x2, j) == orig.pix(x2, j),
        decreases height - y,
    {
        let mut x: u32 = 0;
        while x < width / 2
            invariant
                x <= width / 2,
                y < height,
                width == view.spec_width(),
                height == view.spec_height(),
                view.valid_for(*buf),
                orig == *old(buf),
                buf.spec_dimensions() == orig.spec_dimensions(),
                forall|i: int, j: int| 0 <= i < width && 0 <= j < y
                    ==> #[trigger] view.pix_of(*buf, i, j)
                        == view.pix_of(orig, width - 1 - i, j),
                forall|i: int| 0 <= i < x
                    ==> #[trigger] view.pix_of(*buf, i, y as int)
                        == view.pix_of(orig, width - 1 - i, y as int),
                forall|i: int| 0 <= i < x
                    ==> #[trigger] view.pix_of(*buf, width - 1 - i, y as int)
                        == view.pix_of(orig, i, y as int),
                forall|i: int| x <= i <= width - 1 - x
                    ==> #[trigger] view.pix_of(*buf, i, y as int)
                        == view.pix_of(orig, i, y as int),
                forall|i: int, j: int| 0 <= i < width && y < j < height
                    ==> #[trigger] view.pix_of(*buf, i, j) == view.pix_of(orig, i, j),
                forall|x2: int, j: int|
                    0 <= x2 < orig.spec_width() && 0 <= j < orig.spec_height()
                        && !view.region_contains(x2, j)
                        ==> #[trigger] buf.pix(x2, j) == orig.pix(x2, j),
            decreases width / 2 - x,
        {
            let left_pixel_bounds = Rect::new((x, y), (1, 1));
            let right_pixel_bounds = Rect::new((width - 1 - x, y), (1, 1));
            let mut pair: Vec<Rect> = Vec::new();
            pair.push(left_pixel_bounds);
            pair.push(right_pixel_bounds);

            let windows = match view.view_mut_multiple(&pair) {
                Some(ws) => ws,
                None => {
                    proof {
                        assert forall|i: int| 0 <= i < pair@.len()
                            implies view.abs_bounds().spec_relative_bounds().spec_contains_rect(
                                #[trigger] pair@[i],
                            ) by {
                            assert(i == 0 || i == 1);
                        }
                        assert forall|i: int, j: int| 0 <= i < j < pair@.len()
                            implies !(#[trigger] pair@[i].spec_overlaps(pair@[j])) by {
                            assert(i == 0 && j == 1);
                        }
                        assert(false);
                    }
                    Vec::new()
                },
            };
            let left = windows[0];
            let right = windows[1];

            let ghost buf0 = *buf;
            left.swap_with(&right, buf);
            x = x + 1;

            proof {
                let x0 = x - 1;
                let yy = y as int;
                assert(left.pix_of(*buf, 0, 0) == view.pix_of(*buf, x0, yy));
                assert(right.pix_of(*buf, 0, 0) == view.pix_of(*buf, width - 1 - x0, yy));
                assert(left.pix_of(buf0, 0, 0) == view.pix_of(buf0, x0, yy));
                assert(right.pix_of(buf0, 0, 0) == view.pix_of(buf0, width - 1 - x0, yy));
                assert(view.pix_of(buf0, x0, yy) == view.pix_of(orig, x0, yy));
                assert(view.pix_of(buf0, width - 1 - x0, yy)
                    == view.pix_of(orig, width - 1 - x0, yy));

                assert forall|i: int, j: int| 0 <= i < width && 0 <= j < y
                    implies #[trigger] view.pix_of(*buf, i, j)
                        == view.pix_of(orig, width - 1 - i, j) by {
                    assert(view.pix_of(buf0, i, j) == view.pix_of(orig, width - 1 - i, j));
                }
                assert forall|i: int| 0 <= i < x
                    implies #[trigger] view.pix_of(*buf, i, yy)
                        == view.pix_of(orig, width - 1 - i, yy) by {
                    if i < x0 {
                        assert(view.pix_of(buf0, i, yy)
                            == view.pix_of(orig, width - 1 - i, yy));
                    }
                }
                assert forall|i: int| 0 <= i < x
                    implies #[trigger] view.pix_of(*buf, width - 1 - i, yy)
                        == view.pix_of(orig, i, yy) by {
                    if i < x0 {
                        assert(view.pix_of(buf0, width - 1 - i, yy) == view.pix_of(orig, i, yy));
                    }
                }
                assert forall|i: int| x <= i <= width - 1 - x
                    implies #[trigger] view.pix_of(*buf, i, yy)
                        == view.pix_of(orig, i, yy) by {
                    assert(view.pix_of(buf0, i, yy) == view.pix_of(orig, i, yy));
                }
                assert forall|i: int, j: int| 0 <= i < width && y < j < height
                    implies #[trigger] view.pix_of(*buf, i, j) == view.pix_of(orig, i, j) by {
                    assert(view.pix_of(buf0, i, j) == view.pix_of(orig, i, j));
                }
                assert forall|x2: int, j: int|
                    0 <= x2 < orig.spec_width() && 0 <= j < orig.spec_height()
                        && !view.region_contains(x2, j)
                        implies #[trigger] buf.pix(x2, j) == orig.pix(x2, j) by {
                    assert(buf0.pix(x2, j) == orig.pix(x2, j));
                }
            }
        }
        proof {
            assert forall|i: int| 0 <= i < width
                implies #[trigger] view.pix_of(*buf, i, y as int)
                    == view.pix_of(orig, width - 1 - i, y as int) by {
                let half = (width / 2) as int;
                if i > width - 1 - half {
                    let i2 = width - 1 - i;
                    assert(0 <= i2 < half);
                    assert(view.pix_of(*buf, width - 1 - i2, y as int)
                        == view.pix_of(orig, i2, y as int));
                    assert(width - 1 - i2 == i);
                } else if half <= i {
                    assert(i == width - 1 - i);
                }
            }
        }
        y = y + 1;
    }
}

/// Flips the given window of `buf` vertically: afterwards the window's pixel
/// at `(x, y)` holds what its pixel at `(x, height - 1 - y)` held before, and
/// everything outside the window is untouched.
pub fn flip_vertical<P: Copy>(view: &ImgBufViewMut, buf: &mut ImgBuf<P>)
    requires
        view.valid_for(*old(buf)),
    ensures
        view.valid_for(*final(buf)),
        final(buf).spec_dimensions() == old(buf).spec_dimensions(),
        forall|x: int, y: int| 0 <= x < view.spec_width() && 0 <= y < view.spec_height()
            ==> #[trigger] view.pix_of(*final(buf), x, y)
                == view.pix_of(*old(buf), x, view.spec_height() - 1 - y),
        forall|x: int, y: int|
            0 <= x < old(buf).spec_width() && 0 <= y < old(buf).spec_height()
                && !view.region_contains(x, y)
                ==> #[trigger] final(buf).pix(x, y) == old(buf).pix(x, y),
{
    let width = view.dimensions().0;
    let height = view.dimensions().1;
    let ghost orig = *buf;
    let mut x: u32 = 0;
    while x < width
        invariant
            x <= width,
            width == view.spec_width(),
            height == view.spec_height(),
            view.valid_for(*buf),
            orig == *old(buf),
            buf.spec_dimensions() == orig.spec_dimensions(),
            forall|i: int, j: int| 0 <= i < x && 0 <= j < height
                ==> #[trigger] view.pix_of(*buf, i, j)
                    == view.pix_of(orig, i, height - 1 - j),
            forall|i: int, j: int| x <= i < width && 0 <= j < height
                ==> #[trigger] view.pix_of(*buf, i, j) == view.pix_of(orig, i, j),
            forall|x2: int, j: int|
                0 <= x2 < orig.spec_width() && 0 <= j < orig.spec_height()
                    && !view.region_contains(x2, j)
                    ==> #[trigger] buf.pix(x2, j) == orig.pix(x2, j),
        decreases width - x,
    {
        let mut y: u32 = 0;
        while y < height / 2
            invariant
                y <= height / 2,
                x < width,
                width == view.spec_width(),
                height == view.spec_height(),
                view.valid_for(*buf),
                orig == *old(buf),
                buf.spec_dimensions() == orig.spec_dimensions(),
                forall|i: int, j: int| 0 <= i < x && 0 <= j < height
                    ==> #[trigger] view.pix_of(*buf, i, j)
                        == view.pix_of(orig, i, height - 1 - j),
                forall|j: int| 0 <= j < y
                    ==> #[trigger] view.pix_of(*buf, x as int, j)
                        == view.pix_of(orig, x as int, height - 1 - j),
                forall|j: int| 0 <= j < y
                    ==> #[trigger] view.pix_of(*buf, x as int, height - 1 - j)
                        == view.pix_of(orig, x as int, j),
                forall|j: int| y <= j <= height - 1 - y
                    ==> #[trigger] view.pix_of(*buf, x as int, j)
                        == view.pix_of(orig, x as int, j),
                forall|i: int, j: int| x < i < width && 0 <= j < height
                    ==> #[trigger] view.pix_of(*buf, i, j) == view.pix_of(orig, i, j),
                forall|x2: int, j: int|
                    0 <= x2 < orig.spec_width() && 0 <= j < orig.spec_height()
                        && !view.region_contains(x2, j)
                        ==> #[trigger] buf.pix(x2, j) == orig.pix(x2, j),
            decreases height / 2 - y,
        {
            let top_pixel_bounds = Rect::new((x, y), (1, 1));
            let bottom_pixel_bounds = Rect::new((x, height - 1 - y), (1, 1));
            let mut pair: Vec<Rect> = Vec::new();
            pair.push(top_pixel_bounds);
            pair.push(bottom_pixel_bounds);

            let windows = match view.view_mut_multiple(&pair) {
                Some(ws) => ws,
                None => {
                    proof {
                        assert forall|i: int| 0 <= i < pair@.len()
                            implies view.abs_bounds().spec_relative_bounds().spec_contains_rect(
                                #[trigger] pair@[i],
                            ) by {
                            assert(i == 0 || i == 1);
                        }
                        assert forall|i: int, j: int| 0 <= i < j < pair@.len()
                            implies !(#[trigger] pair@[i].spec_overlaps(pair@[j])) by {
                            assert(i == 0 && j == 1);
                        }
                        assert(false);
                    }
                    Vec::new()
                },
            };
            let top = windows[0];
            let bottom = windows[1];

            let ghost buf0 = *buf;
            top.swap_with(&bottom, buf);
            y = y + 1;

            proof {
                let y0 = y - 1;
                let xx = x as int;
                assert(top.pix_of(*buf, 0, 0) == view.pix_of(*buf, xx, y0));
                assert(bottom.pix_of(*buf, 0, 0) == view.pix_of(*buf, xx, height - 1 - y0));
                assert(top.pix_of(buf0, 0, 0) == view.pix_of(buf0, xx, y0));
                assert(bottom.pix_of(buf0, 0, 0) == view.pix_of(buf0, xx, height - 1 - y0));
                assert(view.pix_of(buf0, xx, y0) == view.pix_of(orig, xx, y0));
                assert(view.pix_of(buf0, xx, height - 1 - y0)
                    == view.pix_of(orig, xx, height - 1 - y0));

                assert forall|i: int, j: int| 0 <= i < x && 0 <= j < height
                    implies #[trigger] view.pix_of(*buf, i, j)
                        == view.pix_of(orig, i, height - 1 - j) by {
                    assert(view.pix_of(buf0, i, j) == view.pix_of(orig, i, height - 1 - j));
                }
                assert forall|j: int| 0 <= j < y
                    implies #[trigger] view.pix_of(*buf, xx, j)
                        == view.pix_of(orig, xx, height - 1 - j) by {
                    if j < y0 {
                        assert(view.pix_of(buf0, xx, j)
                            == view.pix_of(orig, xx, height - 1 - j));
                    }
                }
                assert forall|j: int| 0 <= j < y
                    implies #[trigger] view.pix_of(*buf, xx, height - 1 - j)
                        == view.pix_of(orig, xx, j) by {
                    if j < y0 {
                        assert(view.pix_of(buf0, xx, height - 1 - j) == view.pix_of(orig, xx, j));
                    }
                }
                assert forall|j: int| y <= j <= height - 1 - y
                    implies #[trigger] view.pix_of(*buf, xx, j)
                        == view.pix_of(orig, xx, j) by {
                    assert(view.pix_of(buf0, xx, j) == view.pix_of(orig, xx, j));
                }
                assert forall|i: int, j: int| x < i < width && 0 <= j < height
                    implies #[trigger] view.pix_of(*buf, i, j) == view.pix_of(orig, i, j) by {
                    assert(view.pix_of(buf0, i, j) == view.pix_of(orig, i, j));
                }
                assert forall|x2: int, j: int|
                    0 <= x2 < orig.spec_width() && 0 <= j < orig.spec_height()
                        && !view.region_contains(x2, j)
                        implies #[trigger] buf.pix(x2, j) == orig.pix(x2, j) by {
                    assert(buf0.pix(x2, j) == orig.pix(x2, j));
                }
            }
        }
        proof {
            assert forall|j: int| 0 <= j < height
                implies #[trigger] view.pix_of(*buf, x as int, j)
                    == view.pix_of(orig, x as int, height - 1 - j) by {
                let half = (height / 2) as int;
                if j > height - 1 - half {
                    let j2 = height - 1 - j;
                    assert(0 <= j2 < half);
                    assert(view.pix_of(*buf, x as int, height - 1 - j2)
                        == view.pix_of(orig, x as int, j2));
                    assert(height - 1 - j2 == j);
                } else if half <= j {
                    assert(j == height - 1 - j);
                }
            }
        }
        x = x + 1;
    }
}

} // verus!
