//! Line rasterization on mutable windows.
//!
//! Drawing needs nothing from the core beyond the ordinary window write
//! contract: it walks integer coordinates and writes one pixel at a time.

use vstd::prelude::*;

use crate::buffer::ImgBuf;
use crate::view::ImgBufViewMut;
use crate::Point;

verus! {

/// The absolute value of a mathematical integer.
spec fn abs_of(v: int) -> int {
    if v >= 0 {
        v
    } else {
        -v
    }
}

/// Draws a line from `start` towards `end`, both given in the window's own
/// coordinate space and both inside the window, colouring each visited
/// coordinate with the given function. Writes stay inside the window, and
/// every changed pixel holds a value the colouring function produced for
/// exactly that coordinate.
pub fn draw_line<P, F: Fn(Point) -> P>(
    view: &ImgBufViewMut,
    buf: &mut ImgBuf<P>,
    start: Point,
    end: Point,
    f: F,
)
    requires
        view.valid_for(*old(buf)),
        view.abs_bounds().spec_contains_relative(start),
        view.abs_bounds().spec_contains_relative(end),
        forall|p: Point| p.0 < view.spec_width() && p.1 < view.spec_height()
            ==> #[trigger] call_requires(f, (p,)),
    ensures
        view.valid_for(*final(buf)),
        final(buf).spec_dimensions() == old(buf).spec_dimensions(),
        forall|x: int, y: int|
            0 <= x < old(buf).spec_width() && 0 <= y < old(buf).spec_height()
                && !view.region_contains(x, y)
                ==> #[trigger] final(buf).pix(x, y) == old(buf).pix(x, y),
        forall|i: int, j: int| 0 <= i < view.spec_width() && 0 <= j < view.spec_height()
            ==> #[trigger] view.pix_of(*final(buf), i, j) == view.pix_of(*old(buf), i, j)
                || call_ensures(f, (((i as u32, j as u32)),), view.pix_of(*final(buf), i, j)),
{
    let ghost orig = *buf;
    let start_x = start.0 as i64;
    let start_y = start.1 as i64;
    let end_x = end.0 as i64;
    let end_y = end.1 as i64;

    let delta_x = end_x - start_x;
    let delta_y = end_y - start_y;
    let abs_delta_x = if delta_x >= 0 { delta_x } else { -delta_x };
    let abs_delta_y = if delta_y >= 0 { delta_y } else { -delta_y };

    let x_rate: i64 = if delta_x > 0 { 1 } else { -1 };
    let y_rate: i64 = if delta_y > 0 { 1 } else { -1 };

    if abs_delta_x >= abs_delta_y {
        let mut x = start_x;
        let mut y = start_y;
        let mut acc: i64 = 0;
        let mut k: i64 = 0;
        let ghost mut steps: int = 0;

        while k < abs_delta_x
            invariant
                view.valid_for(*buf),
                orig == *old(buf),
                buf.spec_dimensions() == orig.spec_dimensions(),
                view.abs_bounds().spec_contains_relative(start),
                view.abs_bounds().spec_contains_relative(end),
                forall|p: Point| p.0 < view.spec_width() && p.1 < view.spec_height()
                    ==> #[trigger] call_requires(f, (p,)),
                start_x == start.0 && start_y == start.1,
                end_x == end.0 && end_y == end.1,
                delta_x == end_x - start_x && delta_y == end_y - start_y,
                abs_delta_x == abs_of(delta_x as int),
                abs_delta_y == abs_of(delta_y as int),
                abs_delta_y <= abs_delta_x,
                x_rate == (if delta_x > 0 { 1i64 } else { -1i64 }),
                y_rate == (if delta_y > 0 { 1i64 } else { -1i64 }),
                0 <= k <= abs_delta_x,
                x == (if delta_x > 0 { start_x + k } else { start_x - k }),
                y == (if delta_y > 0 { start_y + steps } else { start_y - steps }),
                acc == k * abs_delta_y - steps * abs_delta_x,
                0 <= acc <= abs_delta_x,
                0 <= steps <= abs_delta_y,
                forall|x2: int, y2: int|
                    0 <= x2 < orig.spec_width() && 0 <= y2 < orig.spec_height()
                        && !view.region_contains(x2, y2)
                        ==> #[trigger] buf.pix(x2, y2) == orig.pix(x2, y2),
                forall|i: int, j: int|
                    0 <= i < view.spec_width() && 0 <= j < view.spec_height()
                        ==> #[trigger] view.pix_of(*buf, i, j) == view.pix_of(orig, i, j)
                            || call_ensures(
                            f,
                            (((i as u32, j as u32)),),
                            view.pix_of(*buf, i, j),
                        ),
            decreases abs_delta_x - k,
        {
            proof {
                lemma_advance_acc(
                    acc as int,
                    k as int,
                    steps,
                    abs_delta_x as int,
                    abs_delta_y as int,
                );
            }
            acc = acc + abs_delta_y;
            if acc > abs_delta_x {
                acc = acc - abs_delta_x;
                y = y + y_rate;
                proof {
                    steps = steps + 1;
                }
            }

            proof {
                lemma_step_count_bound(
                    k as int + 1,
                    steps,
                    abs_delta_x as int,
                    abs_delta_y as int,
                );
                assert(0 <= x <= u32::MAX && x < view.spec_width());
                assert(0 <= y <= u32::MAX && y < view.spec_height());
            }
            let coords = (x as u32, y as u32);
            let value = f(coords);
            let ghost buf0 = *buf;
            let ok = view.set_pixel(buf, coords, value);
            x = x + x_rate;
            k = k + 1;

            proof {
                assert(ok);
                assert(view.pix_of(*buf, coords.0 as int, coords.1 as int) == value);
                assert forall|i: int, j: int|
                    0 <= i < view.spec_width() && 0 <= j < view.spec_height()
                        implies #[trigger] view.pix_of(*buf, i, j) == view.pix_of(orig, i, j)
                            || call_ensures(
                            f,
                            (((i as u32, j as u32)),),
                            view.pix_of(*buf, i, j),
                        ) by {
                    if i != coords.0 as int || j != coords.1 as int {
                        assert(view.pix_of(*buf, i, j) == view.pix_of(buf0, i, j));
                        assert(view.pix_of(buf0, i, j) == view.pix_of(orig, i, j)
                            || call_ensures(
                            f,
                            (((i as u32, j as u32)),),
                            view.pix_of(buf0, i, j),
                        ));
                    }
                }
                assert forall|x2: int, y2: int|
                    0 <= x2 < orig.spec_width() && 0 <= y2 < orig.spec_height()
                        && !view.region_contains(x2, y2)
                        implies #[trigger] buf.pix(x2, y2) == orig.pix(x2, y2) by {
                    assert(buf0.pix(x2, y2) == orig.pix(x2, y2));
                }
            }
        }
    } else {
        let mut x = start_x;
        let mut y = start_y;
        let mut acc: i64 = 0;
        let mut k: i64 = 0;
        let ghost mut steps: int = 0;

        while k < abs_delta_y
            invariant
                view.valid_for(*buf),
                orig == *old(buf),
                buf.spec_dimensions() == orig.spec_dimensions(),
                view.abs_bounds().spec_contains_relative(start),
                view.abs_bounds().spec_contains_relative(end),
                forall|p: Point| p.0 < view.spec_width() && p.1 < view.spec_height()
                    ==> #[trigger] call_requires(f, (p,)),
                start_x == start.0 && start_y == start.1,
                end_x == end.0 && end_y == end.1,
                delta_x == end_x - start_x && delta_y == end_y - start_y,
                abs_delta_x == abs_of(delta_x as int),
                abs_delta_y == abs_of(delta_y as int),
                abs_delta_x < abs_delta_y,
                x_rate == (if delta_x > 0 { 1i64 } else { -1i64 }),
                y_rate == (if delta_y > 0 { 1i64 } else { -1i64 }),
                0 <= k <= abs_delta_y,
                y == (if delta_y > 0 { start_y + k } else { start_y - k }),
                x == (if delta_x > 0 { start_x + steps } else { start_x - steps }),
                acc == k * abs_delta_x - steps * abs_delta_y,
                0 <= acc <= abs_delta_y,
                0 <= steps <= abs_delta_x,
                forall|x2: int, y2: int|
                    0 <= x2 < orig.spec_width() && 0 <= y2 < orig.spec_height()
                        && !view.region_contains(x2, y2)
                        ==> #[trigger] buf.pix(x2, y2) == orig.pix(x2, y2),
                forall|i: int, j: int|
                    0 <= i < view.spec_width() && 0 <= j < view.spec_height()
                        ==> #[trigger] view.pix_of(*buf, i, j) == view.pix_of(orig, i, j)
                            || call_ensures(
                            f,
                            (((i as u32, j as u32)),),
                            view.pix_of(*buf, i, j),
                        ),
            decreases abs_delta_y - k,
        {
            proof {
                lemma_advance_acc(
                    acc as int,
                    k as int,
                    steps,
                    abs_delta_y as int,
                    abs_delta_x as int,
                );
            }
            acc = acc + abs_delta_x;
            if acc > abs_delta_y {
                acc = acc - abs_delta_y;
                x = x + x_rate;
                proof {
                    steps = steps + 1;
                }
            }

            proof {
                lemma_step_count_bound(
                    k as int + 1,
                    steps,
                    abs_delta_y as int,
                    abs_delta_x as int,
                );
                assert(0 <= x <= u32::MAX && x < view.spec_width());
                assert(0 <= y <= u32::MAX && y < view.spec_height());
            }
            let coords = (x as u32, y as u32);
            let value = f(coords);
            let ghost buf0 = *buf;
            let ok = view.set_pixel(buf, coords, value);
            y = y + y_rate;
            k = k + 1;

            proof {
                assert(ok);
                assert(view.pix_of(*buf, coords.0 as int, coords.1 as int) == value);
                assert forall|i: int, j: int|
                    0 <= i < view.spec_width() && 0 <= j < view.spec_height()
                        implies #[trigger] view.pix_of(*buf, i, j) == view.pix_of(orig, i, j)
                            || call_ensures(
                            f,
                            (((i as u32, j as u32)),),
                            view.pix_of(*buf, i, j),
                        ) by {
                    if i != coords.0 as int || j != coords.1 as int {
                        assert(view.pix_of(*buf, i, j) == view.pix_of(buf0, i, j));
                        assert(view.pix_of(buf0, i, j) == view.pix_of(orig, i, j)
                            || call_ensures(
                            f,
                            (((i as u32, j as u32)),),
                            view.pix_of(buf0, i, j),
                        ));
                    }
                }
                assert forall|x2: int, y2: int|
                    0 <= x2 < orig.spec_width() && 0 <= y2 < orig.spec_height()
                        && !view.region_contains(x2, y2)
                        implies #[trigger] buf.pix(x2, y2) == orig.pix(x2, y2) by {
                    assert(buf0.pix(x2, y2) == orig.pix(x2, y2));
                }
            }
        }
    }
}

/// Adding one iteration's `minor` to the accumulator, and optionally paying
/// one `major` step, keeps the accumulator equal to its closed form.
proof fn lemma_advance_acc(acc0: int, k: int, steps: int, major: int, minor: int)
    requires
        acc0 == k * minor - steps * major,
    ensures
        acc0 + minor == (k + 1) * minor - steps * major,
        acc0 + minor - major == (k + 1) * minor - (steps + 1) * major,
{
    assert((k + 1) * minor == k * minor + minor) by (nonlinear_arith);
    assert((steps + 1) * major == steps * major + major) by (nonlinear_arith);
}

/// A walk that takes `steps` cross-axis steps over `k` of `major` iterations,
/// accumulating `minor` per iteration and paying `major` per step, never
/// steps more than `minor` times while its accumulator stays non-negative.
proof fn lemma_step_count_bound(k: int, steps: int, major: int, minor: int)
    requires
        0 < k <= major,
        0 <= minor <= major,
        0 <= steps,
        k * minor - steps * major >= 0,
    ensures
        steps <= minor,
{
    if steps > minor {
        assert(steps * major >= (minor + 1) * major) by (nonlinear_arith)
            requires
                steps >= minor + 1,
                major > 0,
        ;
        assert(k * minor <= major * minor) by (nonlinear_arith)
            requires
                0 < k <= major,
                0 <= minor,
        ;
        assert((minor + 1) * major == minor * major + major) by (nonlinear_arith);
        assert(minor * major == major * minor) by (nonlinear_arith);
    }
}

} // verus!
