//! Read-only and mutable windows into an image buffer.
//!
//! An [`ImgBufView`] borrows its buffer and exposes a rectangular region of
//! it in the region's own coordinate space. An [`ImgBufViewMut`] is a window
//! descriptor: it carries the dimensions of the buffer it was made for and
//! the absolute rectangle it covers, and every write through it takes the
//! buffer alongside. Writes through a window stay inside the window's
//! region, so windows over disjoint rectangles never disturb one another;
//! the multi-window constructors reject any overlapping request.

use vstd::prelude::*;

use crate::buffer::ImgBuf;
use crate::util::{index_point, lemma_row_major_index_bounds};
use crate::{Point, Rect};

verus! {

/// A read-only window into an [`ImgBuf`], addressed in its own coordinate
/// space.
pub struct ImgBufView<'buffer_ref, P> {
    pub(crate) buffer: &'buffer_ref ImgBuf<P>,
    /// The region this window covers, in buffer-absolute coordinates.
    pub(crate) bounds: Rect,
}

impl<'buffer_ref, P> ImgBufView<'buffer_ref, P> {
    /// The window's rectangle lies inside its buffer.
    pub open(crate) spec fn wf(self) -> bool {
        &&& self.buffer.wf()
        &&& self.bounds.wf()
        &&& self.bounds.x + self.bounds.width <= self.buffer.width
        &&& self.bounds.y + self.bounds.height <= self.buffer.height
    }

    /// The buffer this window reads from.
    pub open(crate) spec fn spec_buffer(self) -> ImgBuf<P> {
        *self.buffer
    }

    /// The covered region, in buffer-absolute coordinates.
    pub open(crate) spec fn abs_bounds(self) -> Rect {
        self.bounds
    }

    pub open(crate) spec fn spec_width(self) -> u32 {
        self.bounds.width
    }

    pub open(crate) spec fn spec_height(self) -> u32 {
        self.bounds.height
    }

    pub open(crate) spec fn spec_dimensions(self) -> (u32, u32) {
        (self.bounds.width, self.bounds.height)
    }

    /// The pixel at window-relative coordinates `(x, y)`.
    pub open(crate) spec fn pix(self, x: int, y: int) -> P {
        self.buffer.pix(self.bounds.x + x, self.bounds.y + y)
    }

    /// The width of this window.
    pub fn width(&self) -> (r: u32)
        ensures
            r == self.spec_width(),
    {
        self.bounds.dimensions().0
    }

    /// The height of this window.
    pub fn height(&self) -> (r: u32)
        ensures
            r == self.spec_height(),
    {
        self.bounds.dimensions().1
    }

    /// The dimensions of this window. Equivalent to `(width, height)`.
    pub fn dimensions(&self) -> (r: (u32, u32))
        ensures
            r == self.spec_dimensions(),
    {
        self.bounds.dimensions()
    }

    /// The size of this window in pixels. Equivalent to `width * height`.
    pub fn size(&self) -> (r: usize)
        requires
            self.wf(),
        ensures
            r == self.spec_width() * self.spec_height(),
    {
        proof {
            self.buffer.lemma_size_bound();
            crate::util::lemma_mul_mono(
                self.bounds.width as int,
                self.bounds.height as int,
                self.buffer.width as int,
                self.buffer.height as int,
            );
        }
        (self.bounds.dimensions().0 as usize) * (self.bounds.dimensions().1 as usize)
    }

    /// Returns a [`Rect`] with top-left point `(0, 0)` and this window's
    /// dimensions: the window's own coordinate space.
    pub fn bounds(&self) -> (r: Rect)
        requires
            self.wf(),
        ensures
            r == self.abs_bounds().spec_relative_bounds(),
            r.wf(),
    {
        Rect::new((0, 0), self.bounds.dimensions())
    }

    /// Returns a reference to the pixel at the given window-relative
    /// coordinates, or [`None`] if they fall outside the window.
    pub fn pixel(&self, coords: Point) -> (r: Option<&P>)
        requires
            self.wf(),
        ensures
            match r {
                Some(p) => self.abs_bounds().spec_contains_relative(coords)
                    && *p == self.pix(coords.0 as int, coords.1 as int),
                None => !self.abs_bounds().spec_contains_relative(coords),
            },
    {
        if coords.0 < self.bounds.dimensions().0 && coords.1 < self.bounds.dimensions().1 {
            let abs_x = self.bounds.top_left().0 + coords.0;
            let abs_y = self.bounds.top_left().1 + coords.1;
            proof {
                self.buffer.lemma_size_bound();
                lemma_row_major_index_bounds(
                    abs_x as int,
                    abs_y as int,
                    self.buffer.width as int,
                    self.buffer.height as int,
                );
            }
            let index = index_point((abs_x, abs_y), self.buffer.width());
            Some(&self.buffer.data[index])
        } else {
            None
        }
    }

    /// Returns a window into this window. The given rect is relative to this
    /// window's coordinate space; it must fit inside the window, else
    /// [`None`] is returned.
    pub fn view(&self, bounds: Rect) -> (r: Option<ImgBufView<'buffer_ref, P>>)
        requires
            self.wf(),
            bounds.wf(),
        ensures
            match r {
                Some(v) => {
                    &&& self.abs_bounds().spec_relative_bounds().spec_contains_rect(bounds)
                    &&& v.wf()
                    &&& v.spec_buffer() == self.spec_buffer()
                    &&& v.abs_bounds() == self.abs_bounds().spec_abs_rect_from_relative(bounds)
                },
                None => !self.abs_bounds().spec_relative_bounds().spec_contains_rect(bounds),
            },
    {
        if self.bounds.contains_rect_relative(&bounds) {
            let abs = self.bounds.abs_rect_from_relative(bounds);
            Some(ImgBufView { buffer: self.buffer, bounds: abs })
        } else {
            None
        }
    }

    /// Copies this window into a newly allocated buffer of the same
    /// dimensions.
    pub fn to_buffer(&self) -> (r: ImgBuf<P>) where P: Copy
        requires
            self.wf(),
        ensures
            r.wf(),
            r.spec_dimensions() == self.spec_dimensions(),
            forall|x: int, y: int| 0 <= x < self.spec_width() && 0 <= y < self.spec_height()
                ==> #[trigger] r.pix(x, y) == self.pix(x, y),
    {
        let width = self.bounds.dimensions().0;
        let height = self.bounds.dimensions().1;
        proof {
            self.buffer.lemma_size_bound();
            crate::util::lemma_mul_mono(
                width as int,
                height as int,
                self.buffer.width as int,
                self.buffer.height as int,
            );
        }
        let mut data: Vec<P> = Vec::new();
        let mut y: u32 = 0;
        while y < height
            invariant
                y <= height,
                self.wf(),
                width == self.spec_width(),
                height == self.spec_height(),
                data@.len() == y * width,
                forall|i: int, j: int| 0 <= i < width && 0 <= j < y
                    ==> #[trigger] data@[j * width + i] == self.pix(i, j),
            decreases height - y,
        {
            let mut x: u32 = 0;
            while x < width
                invariant
                    x <= width,
                    y < height,
                    self.wf(),
                    width == self.spec_width(),
                    height == self.spec_height(),
                    data@.len() == y * width + x,
                    forall|i: int, j: int| 0 <= i < width && 0 <= j < y
                        ==> #[trigger] data@[j * width + i] == self.pix(i, j),
                    forall|i: int| 0 <= i < x
                        ==> #[trigger] data@[y * width + i] == self.pix(i, y as int),
                decreases width - x,
            {
                let p = *self.pixel((x, y)).unwrap();
                data.push(p);
                x = x + 1;
                proof {
                    assert forall|i: int, j: int| 0 <= i < width && 0 <= j < y
                        implies #[trigger] data@[j * width + i] == self.pix(i, j) by {
                        crate::util::lemma_row_major_strict_rows(i, j, y as int, width as int);
                    }
                }
            }
            proof {
                assert((y + 1) * width == y * width + width) by (nonlinear_arith);
            }
            y = y + 1;
        }
        proof {
            assert(height * width == width * height) by (nonlinear_arith);
        }
        let r = ImgBuf::from_container(data, width, height);
        proof {
            assert forall|x: int, y: int| 0 <= x < width && 0 <= y < height
                implies #[trigger] r.pix(x, y) == self.pix(x, y) by {
                lemma_row_major_index_bounds(x, y, width as int, height as int);
            }
        }
        r
    }
}

/// A window reads exactly its buffer's pixels: at every point of the window's
/// own coordinate space, the window's pixel equals the buffer's pixel at the
/// absolute point the window's bounds translate it to.
pub proof fn lemma_view_pixel<P>(v: ImgBufView<'_, P>, p: Point)
    requires
        v.wf(),
        v.abs_bounds().spec_contains_relative(p),
    ensures
        v.pix(p.0 as int, p.1 as int) == v.spec_buffer().pix(
            v.abs_bounds().spec_abs_point_from_relative(p).0 as int,
            v.abs_bounds().spec_abs_point_from_relative(p).1 as int,
        ),
{
}

/// A mutable window descriptor: exclusive write access to one rectangular
/// region of a buffer.
///
/// The descriptor records the dimensions of the buffer it was made for and
/// the absolute rectangle it covers; each access hands the buffer in
/// alongside. Every write through a window provably stays inside the
/// window's region, and the multi-window constructors only return windows
/// over pairwise disjoint regions, so writes through one window never show
/// through another.
#[derive(Debug, Clone, Copy)]
pub struct ImgBufViewMut {
    pub(crate) buffer_width: u32,
    pub(crate) buffer_height: u32,
    /// The region this window covers, in buffer-absolute coordinates.
    pub(crate) bounds: Rect,
}

impl ImgBufViewMut {
    /// The window's rectangle lies inside the buffer it was made for.
    pub open(crate) spec fn wf(self) -> bool {
        &&& self.bounds.wf()
        &&& self.bounds.x + self.bounds.width <= self.buffer_width
        &&& self.bounds.y + self.bounds.height <= self.buffer_height
    }

    /// The window was made for a buffer of exactly this shape.
    pub open(crate) spec fn valid_for<P>(self, buf: ImgBuf<P>) -> bool {
        &&& self.wf()
        &&& buf.wf()
        &&& self.buffer_width == buf.width
        &&& self.buffer_height == buf.height
    }

    /// The covered region, in buffer-absolute coordinates.
    pub open(crate) spec fn abs_bounds(self) -> Rect {
        self.bounds
    }

    pub open(crate) spec fn spec_width(self) -> u32 {
        self.bounds.width
    }

    pub open(crate) spec fn spec_height(self) -> u32 {
        self.bounds.height
    }

    pub open(crate) spec fn spec_dimensions(self) -> (u32, u32) {
        (self.bounds.width, self.bounds.height)
    }

    /// The dimensions of the buffer this window was made for.
    pub open(crate) spec fn spec_buffer_dimensions(self) -> (u32, u32) {
        (self.buffer_width, self.buffer_height)
    }

    /// Whether the absolute buffer cell `(x, y)` lies in this window's
    /// region.
    pub open(crate) spec fn region_contains(self, x: int, y: int) -> bool {
        &&& self.bounds.x <= x < self.bounds.x + self.bounds.width
        &&& self.bounds.y <= y < self.bounds.y + self.bounds.height
    }

    /// The absolute point a window-relative point translates to.
    pub open(crate) spec fn abs_point(self, rel: Point) -> Point {
        self.bounds.spec_abs_point_from_relative(rel)
    }

    /// The pixel this window sees in `buf` at window-relative `(x, y)`.
    pub open(crate) spec fn pix_of<P>(self, buf: ImgBuf<P>, x: int, y: int) -> P {
        buf.pix(self.bounds.x + x, self.bounds.y + y)
    }

    /// The width of this window.
    pub fn width(&self) -> (r: u32)
        ensures
            r == self.spec_width(),
    {
        self.bounds.dimensions().0
    }

    /// The height of this window.
    pub fn height(&self) -> (r: u32)
        ensures
            r == self.spec_height(),
    {
        self.bounds.dimensions().1
    }

    /// The dimensions of this window. Equivalent to `(width, height)`.
    pub fn dimensions(&self) -> (r: (u32, u32))
        ensures
            r == self.spec_dimensions(),
    {
        self.bounds.dimensions()
    }

    /// Returns a [`Rect`] with top-left point `(0, 0)` and this window's
    /// dimensions: the window's own coordinate space.
    pub fn bounds(&self) -> (r: Rect)
        requires
            self.wf(),
        ensures
            r == self.abs_bounds().spec_relative_bounds(),
            r.wf(),
    {
        Rect::new((0, 0), self.bounds.dimensions())
    }

    /// The size of this window in pixels. Equivalent to `width * height`;
    /// the buffer the window was made for shows the product fits in a size.
    pub fn size<P>(&self, buf: &ImgBuf<P>) -> (r: usize)
        requires
            self.valid_for(*buf),
        ensures
            r == self.spec_width() * self.spec_height(),
    {
        proof {
            buf.lemma_size_bound();
            crate::util::lemma_mul_mono(
                self.bounds.width as int,
                self.bounds.height as int,
                buf.width as int,
                buf.height as int,
            );
        }
        (self.bounds.dimensions().0 as usize) * (self.bounds.dimensions().1 as usize)
    }

    /// Returns a reference to the pixel of `buf` at the given window-relative
    /// coordinates, or [`None`] if they fall outside the window.
    pub fn pixel<'a, P>(&self, buf: &'a ImgBuf<P>, coords: Point) -> (r: Option<&'a P>)
        requires
            self.valid_for(*buf),
        ensures
            match r {
                Some(p) => self.abs_bounds().spec_contains_relative(coords)
                    && *p == self.pix_of(*buf, coords.0 as int, coords.1 as int),
                None => !self.abs_bounds().spec_contains_relative(coords),
            },
    {
        if coords.0 < self.bounds.dimensions().0 && coords.1 < self.bounds.dimensions().1 {
            let abs_x = self.bounds.top_left().0 + coords.0;
            let abs_y = self.bounds.top_left().1 + coords.1;
            proof {
                buf.lemma_size_bound();
                lemma_row_major_index_bounds(
                    abs_x as int,
                    abs_y as int,
                    buf.width as int,
                    buf.height as int,
                );
            }
            let index = index_point((abs_x, abs_y), buf.width());
            Some(&buf.data[index])
        } else {
            None
        }
    }

    /// Writes the pixel of `buf` at the given window-relative coordinates and
    /// reports whether they were inside the window. A write outside the
    /// window changes nothing, and a write inside it changes exactly one cell
    /// of the window's own region.
    pub fn set_pixel<P>(&self, buf: &mut ImgBuf<P>, coords: Point, value: P) -> (ok: bool)
        requires
            self.valid_for(*old(buf)),
        ensures
            self.valid_for(*final(buf)),
            final(buf).spec_dimensions() == old(buf).spec_dimensions(),
            ok <==> self.abs_bounds().spec_contains_relative(coords),
            !ok ==> *final(buf) == *old(buf),
            ok ==> self.region_contains(
                self.abs_point(coords).0 as int,
                self.abs_point(coords).1 as int,
            ),
            ok ==> final(buf).pix(
                self.abs_point(coords).0 as int,
                self.abs_point(coords).1 as int,
            ) == value,
            ok ==> forall|x: int, y: int|
                0 <= x < old(buf).spec_width() && 0 <= y < old(buf).spec_height()
                    && !(x == self.abs_point(coords).0 && y == self.abs_point(coords).1)
                    ==> #[trigger] final(buf).pix(x, y) == old(buf).pix(x, y),
    {
        if coords.0 < self.bounds.dimensions().0 && coords.1 < self.bounds.dimensions().1 {
            let abs_x = self.bounds.top_left().0 + coords.0;
            let abs_y = self.bounds.top_left().1 + coords.1;
            let ghost old_buf = *buf;
            let ok = buf.set_pixel((abs_x, abs_y), value);
            proof {
                buf.lemma_size_bound();
                lemma_row_major_index_bounds(
                    abs_x as int,
                    abs_y as int,
                    buf.width as int,
                    buf.height as int,
                );
                assert forall|x: int, y: int|
                    0 <= x < old_buf.spec_width() && 0 <= y < old_buf.spec_height()
                        && !(x == abs_x && y == abs_y)
                        implies #[trigger] buf.pix(x, y) == old_buf.pix(x, y) by {
                    lemma_row_major_index_bounds(x, y, buf.width as int, buf.height as int);
                    crate::util::lemma_row_major_index_injective(
                        x,
                        y,
                        abs_x as int,
                        abs_y as int,
                        buf.width as int,
                    );
                }
            }
            ok
        } else {
            false
        }
    }

    /// A cell in this window's region is not in the region of a window whose
    /// rectangle does not overlap this one.
    pub(crate) proof fn lemma_disjoint_regions(self, other: ImgBufViewMut, x: int, y: int)
        requires
            self.wf(),
            other.wf(),
            !self.abs_bounds().spec_overlaps(other.abs_bounds()),
            self.region_contains(x, y),
        ensures
            !other.region_contains(x, y),
    {
        if other.region_contains(x, y) {
            let p = (x as u32, y as u32);
            assert(self.abs_bounds().spec_contains(p));
            assert(other.abs_bounds().spec_contains(p));
            crate::lemma_overlaps_iff_common_point(self.abs_bounds(), other.abs_bounds());
        }
    }

    /// Copies a window of another buffer into this window of `buf`. The two
    /// windows must have equal dimensions.
    pub fn copy_from<P: Copy>(&self, buf: &mut ImgBuf<P>, src: &ImgBufView<'_, P>)
        requires
            self.valid_for(*old(buf)),
            src.wf(),
            self.spec_dimensions() == src.spec_dimensions(),
        ensures
            self.valid_for(*final(buf)),
            final(buf).spec_dimensions() == old(buf).spec_dimensions(),
            forall|x: int, y: int| 0 <= x < self.spec_width() && 0 <= y < self.spec_height()
                ==> #[trigger] self.pix_of(*final(buf), x, y) == src.pix(x, y),
            forall|x: int, y: int|
                0 <= x < old(buf).spec_width() && 0 <= y < old(buf).spec_height()
                    && !self.region_contains(x, y)
                    ==> #[trigger] final(buf).pix(x, y) == old(buf).pix(x, y),
    {
        let width = self.bounds.dimensions().0;
        let height = self.bounds.dimensions().1;
        let ghost orig = *buf;
        let mut y: u32 = 0;
        while y < height
            invariant
                y <= height,
                width == self.spec_width(),
                height == self.spec_height(),
                self.valid_for(*buf),
                src.wf(),
                orig == *old(buf),
                self.spec_dimensions() == src.spec_dimensions(),
                buf.spec_dimensions() == orig.spec_dimensions(),
                forall|i: int, j: int| 0 <= i < width && 0 <= j < y
                    ==> #[trigger] self.pix_of(*buf, i, j) == src.pix(i, j),
                forall|i: int, j: int| 0 <= i < width && y <= j < height
                    ==> #[trigger] self.pix_of(*buf, i, j) == self.pix_of(orig, i, j),
                forall|x: int, j: int|
                    0 <= x < orig.spec_width() && 0 <= j < orig.spec_height()
                        && !self.region_contains(x, j)
                        ==> #[trigger] buf.pix(x, j) == orig.pix(x, j),
            decreases height - y,
        {
            let mut x: u32 = 0;
            while x < width
                invariant
                    x <= width,
                    y < height,
                    width == self.spec_width(),
                    height == self.spec_height(),
                    self.valid_for(*buf),
                    src.wf(),
                    orig == *old(buf),
                    self.spec_dimensions() == src.spec_dimensions(),
                    buf.spec_dimensions() == orig.spec_dimensions(),
                    forall|i: int, j: int| 0 <= i < width && 0 <= j < y
                        ==> #[trigger] self.pix_of(*buf, i, j) == src.pix(i, j),
                    forall|i: int| 0 <= i < x
                        ==> #[trigger] self.pix_of(*buf, i, y as int) == src.pix(i, y as int),
                    forall|i: int, j: int|
                        0 <= i < width && y <= j < height && (j > y || i >= x)
                            ==> #[trigger] self.pix_of(*buf, i, j)
                                == self.pix_of(orig, i, j),
                    forall|x2: int, j: int|
                        0 <= x2 < orig.spec_width() && 0 <= j < orig.spec_height()
                            && !self.region_contains(x2, j)
                            ==> #[trigger] buf.pix(x2, j) == orig.pix(x2, j),
                decreases width - x,
            {
                let p = *src.pixel((x, y)).unwrap();
                let ghost buf0 = *buf;
                self.set_pixel(buf, (x, y), p);
                x = x + 1;
                proof {
                    assert forall|i: int, j: int| 0 <= i < width && 0 <= j < y
                        implies #[trigger] self.pix_of(*buf, i, j) == src.pix(i, j) by {
                        assert(self.pix_of(buf0, i, j) == src.pix(i, j));
                    }
                    assert forall|i: int| 0 <= i < x
                        implies #[trigger] self.pix_of(*buf, i, y as int)
                            == src.pix(i, y as int) by {
                        if i < x - 1 {
                            assert(self.pix_of(buf0, i, y as int) == src.pix(i, y as int));
                        }
                    }
                    assert forall|i: int, j: int|
                        0 <= i < width && y <= j < height && (j > y || i >= x)
                            implies #[trigger] self.pix_of(*buf, i, j)
                                == self.pix_of(orig, i, j) by {
                        assert(self.pix_of(buf0, i, j) == self.pix_of(orig, i, j));
                    }
                    assert forall|x2: int, j: int|
                        0 <= x2 < orig.spec_width() && 0 <= j < orig.spec_height()
                            && !self.region_contains(x2, j)
                            implies #[trigger] buf.pix(x2, j) == orig.pix(x2, j) by {
                        assert(buf0.pix(x2, j) == orig.pix(x2, j));
                    }
                }
            }
            y = y + 1;
        }
    }

    /// Swaps the contents of this window of `buf` with another window of the
    /// same buffer. The two windows must have equal dimensions and must not
    /// overlap.
    pub fn swap_with<P: Copy>(&self, other: &ImgBufViewMut, buf: &mut ImgBuf<P>)
        requires
            self.valid_for(*old(buf)),
            other.valid_for(*old(buf)),
            self.spec_dimensions() == other.spec_dimensions(),
            !self.abs_bounds().spec_overlaps(other.abs_bounds()),
        ensures
            self.valid_for(*final(buf)),
            final(buf).spec_dimensions() == old(buf).spec_dimensions(),
            forall|x: int, y: int| 0 <= x < self.spec_width() && 0 <= y < self.spec_height()
                ==> #[trigger] self.pix_of(*final(buf), x, y) == other.pix_of(*old(buf), x, y),
            forall|x: int, y: int| 0 <= x < self.spec_width() && 0 <= y < self.spec_height()
                ==> #[trigger] other.pix_of(*final(buf), x, y) == self.pix_of(*old(buf), x, y),
            forall|x: int, y: int|
                0 <= x < old(buf).spec_width() && 0 <= y < old(buf).spec_height()
                    && !self.region_contains(x, y) && !other.region_contains(x, y)
                    ==> #[trigger] final(buf).pix(x, y) == old(buf).pix(x, y),
    {
        let width = self.bounds.dimensions().0;
        let height = self.bounds.dimensions().1;
        let ghost orig = *buf;
        let mut y: u32 = 0;
        while y < height
            invariant
                y <= height,
                width == self.spec_width(),
                height == self.spec_height(),
                self.valid_for(*buf),
                other.valid_for(*buf),
                orig == *old(buf),
                self.spec_dimensions() == other.spec_dimensions(),
                !self.abs_bounds().spec_overlaps(other.abs_bounds()),
                buf.spec_dimensions() == orig.spec_dimensions(),
                forall|i: int, j: int| 0 <= i < width && 0 <= j < y
                    ==> #[trigger] self.pix_of(*buf, i, j) == other.pix_of(orig, i, j),
                forall|i: int, j: int| 0 <= i < width && 0 <= j < y
                    ==> #[trigger] other.pix_of(*buf, i, j) == self.pix_of(orig, i, j),
                forall|i: int, j: int| 0 <= i < width && y <= j < height
                    ==> #[trigger] self.pix_of(*buf, i, j) == self.pix_of(orig, i, j),
                forall|i: int, j: int| 0 <= i < width && y <= j < height
                    ==> #[trigger] other.pix_of(*buf, i, j) == other.pix_of(orig, i, j),
                forall|x: int, j: int|
                    0 <= x < orig.spec_width() && 0 <= j < orig.spec_height()
                        && !self.region_contains(x, j) && !other.region_contains(x, j)
                        ==> #[trigger] buf.pix(x, j) == orig.pix(x, j),
            decreases height - y,
        {
            let mut x: u32 = 0;
            while x < width
                invariant
                    x <= width,
                    y < height,
                    width == self.spec_width(),
                    height == self.spec_height(),
                    self.valid_for(*buf),
                    other.valid_for(*buf),
                    orig == *old(buf),
                    self.spec_dimensions() == other.spec_dimensions(),
                    !self.abs_bounds().spec_overlaps(other.abs_bounds()),
                    buf.spec_dimensions() == orig.spec_dimensions(),
                    forall|i: int, j: int| 0 <= i < width && 0 <= j < y
                        ==> #[trigger] self.pix_of(*buf, i, j) == other.pix_of(orig, i, j),
                    forall|i: int, j: int| 0 <= i < width && 0 <= j < y
                        ==> #[trigger] other.pix_of(*buf, i, j) == self.pix_of(orig, i, j),
                    forall|i: int| 0 <= i < x
                        ==> #[trigger] self.pix_of(*buf, i, y as int)
                            == other.pix_of(orig, i, y as int),
                    forall|i: int| 0 <= i < x
                        ==> #[trigger] other.pix_of(*buf, i, y as int)
                            == self.pix_of(orig, i, y as int),
                    forall|i: int, j: int|
                        0 <= i < width && y <= j < height && (j > y || i >= x)
                            ==> #[trigger] self.pix_of(*buf, i, j)
                                == self.pix_of(orig, i, j),
                    forall|i: int, j: int|
                        0 <= i < width && y <= j < height && (j > y || i >= x)
                            ==> #[trigger] other.pix_of(*buf, i, j)
                                == other.pix_of(orig, i, j),
                    forall|x2: int, j: int|
                        0 <= x2 < orig.spec_width() && 0 <= j < orig.spec_height()
                            && !self.region_contains(x2, j) && !other.region_contains(x2, j)
                            ==> #[trigger] buf.pix(x2, j) == orig.pix(x2, j),
                decreases width - x,
            {
                proof {
                    crate::lemma_overlaps_symmetric(self.abs_bounds(), other.abs_bounds());
                    self.lemma_disjoint_regions(
                        *other,
                        self.bounds.x + x,
                        self.bounds.y + y,
                    );
                    other.lemma_disjoint_regions(
                        *self,
                        other.bounds.x + x,
                        other.bounds.y + y,
                    );
                }
                let ghost buf0 = *buf;
                let pa = *self.pixel(buf, (x, y)).unwrap();
                let pb = *other.pixel(buf, (x, y)).unwrap();
                self.set_pixel(buf, (x, y), pb);
                let ghost buf1 = *buf;
                other.set_pixel(buf, (x, y), pa);
                x = x + 1;
                proof {
                    assert forall|i: int, j: int|
                        0 <= i < width && 0 <= j < height && (j < y || (j == y && i < x))
                            implies (#[trigger] self.pix_of(*buf, i, j) == other.pix_of(
                                orig, i, j,
                            )) && (other.pix_of(*buf, i, j) == self.pix_of(
                                orig, i, j,
                            )) by {
                        self.lemma_disjoint_regions(
                            *other,
                            self.bounds.x + i,
                            self.bounds.y + j,
                        );
                        other.lemma_disjoint_regions(
                            *self,
                            other.bounds.x + i,
                            other.bounds.y + j,
                        );
                        if j == y && i == x - 1 {
                            assert(pa == self.pix_of(buf0, i, j));
                            assert(pb == other.pix_of(buf0, i, j));
                            assert(self.pix_of(buf0, i, j) == self.pix_of(orig, i, j));
                            assert(other.pix_of(buf0, i, j) == other.pix_of(orig, i, j));
                            assert(self.pix_of(buf1, i, j) == pb);
                            assert(other.pix_of(*buf, i, j) == pa);
                            assert(self.pix_of(*buf, i, j) == self.pix_of(buf1, i, j));
                        } else {
                            assert(self.pix_of(buf0, i, j) == other.pix_of(orig, i, j));
                            assert(other.pix_of(buf0, i, j) == self.pix_of(orig, i, j));
                            assert(self.pix_of(buf1, i, j) == self.pix_of(buf0, i, j));
                            assert(other.pix_of(buf1, i, j) == other.pix_of(buf0, i, j));
                            assert(self.pix_of(*buf, i, j) == self.pix_of(buf1, i, j));
                            assert(other.pix_of(*buf, i, j) == other.pix_of(buf1, i, j));
                        }
                    }
                    assert forall|i: int, j: int|
                        0 <= i < width && 0 <= j < height && (j < y || (j == y && i < x))
                            implies #[trigger] other.pix_of(*buf, i, j) == self.pix_of(
                                orig, i, j,
                            ) by {
                        assert(self.pix_of(*buf, i, j) == other.pix_of(orig, i, j));
                    }
                    assert forall|i: int, j: int|
                        0 <= i < width && y <= j < height && (j > y || i >= x)
                            implies (#[trigger] self.pix_of(*buf, i, j) == self.pix_of(
                                orig, i, j,
                            )) && (other.pix_of(*buf, i, j) == other.pix_of(
                                orig, i, j,
                            )) by {
                        self.lemma_disjoint_regions(
                            *other,
                            self.bounds.x + i,
                            self.bounds.y + j,
                        );
                        other.lemma_disjoint_regions(
                            *self,
                            other.bounds.x + i,
                            other.bounds.y + j,
                        );
                        assert(self.pix_of(buf0, i, j) == self.pix_of(orig, i, j));
                        assert(other.pix_of(buf0, i, j) == other.pix_of(orig, i, j));
                        assert(self.pix_of(buf1, i, j) == self.pix_of(buf0, i, j));
                        assert(other.pix_of(buf1, i, j) == other.pix_of(buf0, i, j));
                        assert(self.pix_of(*buf, i, j) == self.pix_of(buf1, i, j));
                        assert(other.pix_of(*buf, i, j) == other.pix_of(buf1, i, j));
                    }
                    assert forall|i: int, j: int|
                        0 <= i < width && y <= j < height && (j > y || i >= x)
                            implies #[trigger] other.pix_of(*buf, i, j) == other.pix_of(
                                orig, i, j,
                            ) by {
                        assert(self.pix_of(*buf, i, j) == self.pix_of(orig, i, j));
                    }
                    assert forall|x2: int, j: int|
                        0 <= x2 < orig.spec_width() && 0 <= j < orig.spec_height()
                            && !self.region_contains(x2, j) && !other.region_contains(x2, j)
                            implies #[trigger] buf.pix(x2, j) == orig.pix(x2, j) by {
                        assert(buf0.pix(x2, j) == orig.pix(x2, j));
                        assert(buf1.pix(x2, j) == buf0.pix(x2, j));
                    }
                }
            }
            y = y + 1;
        }
    }

    /// Returns a mutable window into this window. The given rect is relative
    /// to this window's coordinate space; it must fit inside the window, else
    /// [`None`] is returned.
    pub fn view_mut(&self, bounds: Rect) -> (r: Option<ImgBufViewMut>)
        requires
            self.wf(),
            bounds.wf(),
        ensures
            match r {
                Some(w) => {
                    &&& self.abs_bounds().spec_relative_bounds().spec_contains_rect(bounds)
                    &&& w.wf()
                    &&& w.spec_buffer_dimensions() == self.spec_buffer_dimensions()
                    &&& w.abs_bounds() == self.abs_bounds().spec_abs_rect_from_relative(bounds)
                },
                None => !self.abs_bounds().spec_relative_bounds().spec_contains_rect(bounds),
            },
    {
        if self.bounds.contains_rect_relative(&bounds) {
            let abs = self.bounds.abs_rect_from_relative(bounds);
            Some(ImgBufViewMut {
                buffer_width: self.buffer_width,
                buffer_height: self.buffer_height,
                bounds: abs,
            })
        } else {
            None
        }
    }

    /// Splits this window into two disjoint windows, left of and right of the
    /// given window-relative x coordinate. The left window covers relative
    /// columns `[0, mid)` and the right one columns `[mid, width)`; either
    /// may be empty. Disjointness is evident from the split coordinate alone,
    /// so no overlap check is involved.
    pub fn split_x_at_mut(&self, mid: u32) -> (r: Option<(ImgBufViewMut, ImgBufViewMut)>)
        requires
            self.wf(),
            mid <= self.spec_width(),
        ensures
            match r {
                Some(pair) => {
                    &&& pair.0.wf() && pair.1.wf()
                    &&& pair.0.spec_buffer_dimensions() == self.spec_buffer_dimensions()
                    &&& pair.1.spec_buffer_dimensions() == self.spec_buffer_dimensions()
                    &&& pair.0.abs_bounds() == self.abs_bounds().spec_abs_rect_from_relative(
                        Rect::spec_new(0, 0, mid, self.spec_height()),
                    )
                    &&& pair.1.abs_bounds() == self.abs_bounds().spec_abs_rect_from_relative(
                        Rect::spec_new(mid, 0, (self.spec_width() - mid) as u32, self.spec_height()),
                    )
                    &&& !pair.0.abs_bounds().spec_overlaps(pair.1.abs_bounds())
                },
                None => false,
            },
    {
        let left_bounds = Rect::new((0, 0), (mid, self.height()));
        let right_bounds = Rect::new((mid, 0), (self.width() - mid, self.height()));

        let left = ImgBufViewMut {
            buffer_width: self.buffer_width,
            buffer_height: self.buffer_height,
            bounds: self.bounds.abs_rect_from_relative(left_bounds),
        };
        let right = ImgBufViewMut {
            buffer_width: self.buffer_width,
            buffer_height: self.buffer_height,
            bounds: self.bounds.abs_rect_from_relative(right_bounds),
        };
        Some((left, right))
    }

    /// Splits this window into two disjoint windows, above and below the
    /// given window-relative y coordinate. The upper window covers relative
    /// rows `[0, mid)` and the lower one rows `[mid, height)`; either may be
    /// empty. Disjointness is evident from the split coordinate alone, so no
    /// overlap check is involved.
    pub fn split_y_at_mut(&self, mid: u32) -> (r: Option<(ImgBufViewMut, ImgBufViewMut)>)
        requires
            self.wf(),
            mid <= self.spec_height(),
        ensures
            match r {
                Some(pair) => {
                    &&& pair.0.wf() && pair.1.wf()
                    &&& pair.0.spec_buffer_dimensions() == self.spec_buffer_dimensions()
                    &&& pair.1.spec_buffer_dimensions() == self.spec_buffer_dimensions()
                    &&& pair.0.abs_bounds() == self.abs_bounds().spec_abs_rect_from_relative(
                        Rect::spec_new(0, 0, self.spec_width(), mid),
                    )
                    &&& pair.1.abs_bounds() == self.abs_bounds().spec_abs_rect_from_relative(
                        Rect::spec_new(0, mid, self.spec_width(), (self.spec_height() - mid) as u32),
                    )
                    &&& !pair.0.abs_bounds().spec_overlaps(pair.1.abs_bounds())
                },
                None => false,
            },
    {
        let upper_bounds = Rect::new((0, 0), (self.width(), mid));
        let lower_bounds = Rect::new((0, mid), (self.width(), self.height() - mid));

        let upper = ImgBufViewMut {
            buffer_width: self.buffer_width,
            buffer_height: self.buffer_height,
            bounds: self.bounds.abs_rect_from_relative(upper_bounds),
        };
        let lower = ImgBufViewMut {
            buffer_width: self.buffer_width,
            buffer_height: self.buffer_height,
            bounds: self.bounds.abs_rect_from_relative(lower_bounds),
        };
        Some((upper, lower))
    }

    /// Returns one mutable window per given rect, or [`None`] if any rect
    /// escapes this window or any two of them overlap. The rects are relative
    /// to this window's coordinate space. On success the returned windows
    /// cover pairwise disjoint regions of the buffer.
    pub fn view_mut_multiple(&self, bounds: &Vec<Rect>) -> (r: Option<Vec<ImgBufViewMut>>)
        requires
            self.wf(),
            forall|i: int| 0 <= i < bounds@.len() ==> (#[trigger] bounds@[i]).wf(),
        ensures
            match r {
                Some(ws) => {
                    &&& ws@.len() == bounds@.len()
                    &&& forall|i: int| 0 <= i < bounds@.len()
                        ==> self.abs_bounds().spec_relative_bounds().spec_contains_rect(
                            #[trigger] bounds@[i],
                        )
                    &&& forall|i: int, j: int| 0 <= i < j < bounds@.len()
                        ==> !(#[trigger] bounds@[i].spec_overlaps(bounds@[j]))
                    &&& forall|i: int| 0 <= i < ws@.len() ==> (#[trigger] ws@[i]).wf()
                        && ws@[i].spec_buffer_dimensions() == self.spec_buffer_dimensions()
                        && ws@[i].abs_bounds() == self.abs_bounds().spec_abs_rect_from_relative(
                            bounds@[i],
                        )
                    &&& forall|i: int, j: int|
                        0 <= i < ws@.len() && 0 <= j < ws@.len() && i != j
                            ==> !(#[trigger] ws@[i].abs_bounds().spec_overlaps(ws@[j].abs_bounds()))
                },
                None => !((forall|i: int| 0 <= i < bounds@.len()
                    ==> self.abs_bounds().spec_relative_bounds().spec_contains_rect(
                        #[trigger] bounds@[i],
                    )) && (forall|i: int, j: int| 0 <= i < j < bounds@.len()
                    ==> !(#[trigger] bounds@[i].spec_overlaps(bounds@[j])))),
            },
    {
        let n = bounds.len();
        let own_bounds = self.bounds();

        let mut index: usize = 0;
        while index < n
            invariant
                index <= n,
                n == bounds@.len(),
                self.wf(),
                own_bounds == self.abs_bounds().spec_relative_bounds(),
                own_bounds.wf(),
                forall|i: int| 0 <= i < bounds@.len() ==> (#[trigger] bounds@[i]).wf(),
                forall|i: int| 0 <= i < index
                    ==> self.abs_bounds().spec_relative_bounds().spec_contains_rect(
                        #[trigger] bounds@[i],
                    ),
                forall|i: int, j: int| 0 <= i < index && i < j < bounds@.len()
                    ==> !(#[trigger] bounds@[i].spec_overlaps(bounds@[j])),
            decreases n - index,
        {
            if !own_bounds.contains_rect(&bounds[index]) {
                return None;
            }

            let mut j: usize = index + 1;
            while j < n
                invariant
                    index < j <= n,
                    n == bounds@.len(),
                    forall|i: int| 0 <= i < bounds@.len() ==> (#[trigger] bounds@[i]).wf(),
                    forall|k: int| index < k < j
                        ==> !bounds@[index as int].spec_overlaps(#[trigger] bounds@[k]),
                decreases n - j,
            {
                if bounds[index].overlaps(&bounds[j]) {
                    return None;
                }
                j = j + 1;
            }
            index = index + 1;
        }

        let mut windows: Vec<ImgBufViewMut> = Vec::new();
        let mut k: usize = 0;
        while k < n
            invariant
                k <= n,
                n == bounds@.len(),
                self.wf(),
                forall|i: int| 0 <= i < bounds@.len() ==> (#[trigger] bounds@[i]).wf(),
                forall|i: int| 0 <= i < bounds@.len()
                    ==> self.abs_bounds().spec_relative_bounds().spec_contains_rect(
                        #[trigger] bounds@[i],
                    ),
                windows@.len() == k,
                forall|i: int| 0 <= i < k ==> (#[trigger] windows@[i]).wf()
                    && windows@[i].spec_buffer_dimensions() == self.spec_buffer_dimensions()
                    && windows@[i].abs_bounds() == self.abs_bounds().spec_abs_rect_from_relative(
                        bounds@[i],
                    ),
            decreases n - k,
        {
            let abs = self.bounds.abs_rect_from_relative(bounds[k]);
            windows.push(ImgBufViewMut {
                buffer_width: self.buffer_width,
                buffer_height: self.buffer_height,
                bounds: abs,
            });
            k = k + 1;
        }

        proof {
            assert forall|i: int, j: int|
                0 <= i < windows@.len() && 0 <= j < windows@.len() && i != j
                    implies !(#[trigger] windows@[i].abs_bounds().spec_overlaps(
                        windows@[j].abs_bounds(),
                    )) by {
                crate::lemma_translate_preserves_overlaps(
                    self.bounds,
                    bounds@[i],
                    bounds@[j],
                );
                crate::lemma_overlaps_symmetric(bounds@[i], bounds@[j]);
            }
        }

        Some(windows)
    }
}

/// The two windows of a horizontal split partition their parent: every cell
/// of the parent window's region lies in exactly one of the two halves, and
/// no cell lies in both. Together with the write contracts, which confine
/// every write to the window it goes through, mutating the halves
/// independently can leave no overlap artifacts.
pub proof fn lemma_split_x_partitions(
    view: ImgBufViewMut,
    mid: u32,
    left: ImgBufViewMut,
    right: ImgBufViewMut,
    x: int,
    y: int,
)
    requires
        view.wf(),
        mid <= view.spec_width(),
        left.abs_bounds() == view.abs_bounds().spec_abs_rect_from_relative(
            Rect::spec_new(0, 0, mid, view.spec_height()),
        ),
        right.abs_bounds() == view.abs_bounds().spec_abs_rect_from_relative(
            Rect::spec_new(mid, 0, (view.spec_width() - mid) as u32, view.spec_height()),
        ),
    ensures
        view.region_contains(x, y) <==> (left.region_contains(x, y)
            || right.region_contains(x, y)),
        !(left.region_contains(x, y) && right.region_contains(x, y)),
{
}

impl<P> ImgBuf<P> {
    /// Returns a mutable window descriptor over the given region of this
    /// buffer, or [`None`] if the region does not fit inside the buffer.
    pub fn view_mut(&self, bounds: Rect) -> (r: Option<ImgBufViewMut>)
        requires
            self.wf(),
            bounds.wf(),
        ensures
            match r {
                Some(w) => {
                    &&& self.spec_bounds().spec_contains_rect(bounds)
                    &&& w.valid_for(*self)
                    &&& w.abs_bounds() == bounds
                },
                None => !self.spec_bounds().spec_contains_rect(bounds),
            },
    {
        if self.bounds().contains_rect(&bounds) {
            Some(ImgBufViewMut {
                buffer_width: self.width,
                buffer_height: self.height,
                bounds,
            })
        } else {
            None
        }
    }

    /// Returns a mutable window descriptor covering this whole buffer.
    pub fn full_window(&self) -> (r: ImgBufViewMut)
        requires
            self.wf(),
        ensures
            r.valid_for(*self),
            r.abs_bounds() == self.spec_bounds(),
    {
        ImgBufViewMut {
            buffer_width: self.width,
            buffer_height: self.height,
            bounds: self.bounds(),
        }
    }

    /// Splits this buffer into two disjoint mutable windows, left of and
    /// right of the given x coordinate: columns `[0, mid)` and `[mid, width)`.
    /// Either window may be empty. Disjointness is evident from the split
    /// coordinate alone, so no overlap check is involved.
    pub fn split_x_at_mut(&self, mid: u32) -> (r: Option<(ImgBufViewMut, ImgBufViewMut)>)
        requires
            self.wf(),
            mid <= self.spec_width(),
        ensures
            match r {
                Some(pair) => {
                    &&& pair.0.valid_for(*self) && pair.1.valid_for(*self)
                    &&& pair.0.abs_bounds() == Rect::spec_new(0, 0, mid, self.spec_height())
                    &&& pair.1.abs_bounds() == Rect::spec_new(
                        mid, 0, (self.spec_width() - mid) as u32, self.spec_height(),
                    )
                    &&& !pair.0.abs_bounds().spec_overlaps(pair.1.abs_bounds())
                },
                None => false,
            },
    {
        self.full_window().split_x_at_mut(mid)
    }

    /// Splits this buffer into two disjoint mutable windows, above and below
    /// the given y coordinate: rows `[0, mid)` and `[mid, height)`. Either
    /// window may be empty. Disjointness is evident from the split coordinate
    /// alone, so no overlap check is involved.
    pub fn split_y_at_mut(&self, mid: u32) -> (r: Option<(ImgBufViewMut, ImgBufViewMut)>)
        requires
            self.wf(),
            mid <= self.spec_height(),
        ensures
            match r {
                Some(pair) => {
                    &&& pair.0.valid_for(*self) && pair.1.valid_for(*self)
                    &&& pair.0.abs_bounds() == Rect::spec_new(0, 0, self.spec_width(), mid)
                    &&& pair.1.abs_bounds() == Rect::spec_new(
                        0, mid, self.spec_width(), (self.spec_height() - mid) as u32,
                    )
                    &&& !pair.0.abs_bounds().spec_overlaps(pair.1.abs_bounds())
                },
                None => false,
            },
    {
        self.full_window().split_y_at_mut(mid)
    }

    /// Returns one mutable window per given rect, or [`None`] if any rect
    /// escapes this buffer or any two of them overlap. On success the
    /// returned windows cover pairwise disjoint regions of this buffer.
    pub fn view_mut_multiple(&self, bounds: &Vec<Rect>) -> (r: Option<Vec<ImgBufViewMut>>)
        requires
            self.wf(),
            forall|i: int| 0 <= i < bounds@.len() ==> (#[trigger] bounds@[i]).wf(),
        ensures
            match r {
                Some(ws) => {
                    &&& ws@.len() == bounds@.len()
                    &&& forall|i: int| 0 <= i < bounds@.len()
                        ==> self.spec_bounds().spec_contains_rect(#[trigger] bounds@[i])
                    &&& forall|i: int, j: int| 0 <= i < j < bounds@.len()
                        ==> !(#[trigger] bounds@[i].spec_overlaps(bounds@[j]))
                    &&& forall|i: int| 0 <= i < ws@.len() ==> (#[trigger] ws@[i]).valid_for(*self)
                        && ws@[i].abs_bounds() == bounds@[i]
                    &&& forall|i: int, j: int|
                        0 <= i < ws@.len() && 0 <= j < ws@.len() && i != j
                            ==> !(#[trigger] ws@[i].abs_bounds().spec_overlaps(ws@[j].abs_bounds()))
                },
                None => !((forall|i: int| 0 <= i < bounds@.len()
                    ==> self.spec_bounds().spec_contains_rect(#[trigger] bounds@[i]))
                    && (forall|i: int, j: int| 0 <= i < j < bounds@.len()
                        ==> !(#[trigger] bounds@[i].spec_overlaps(bounds@[j])))),
            },
    {
        self.full_window().view_mut_multiple(bounds)
    }

    /// Returns a read-only window over the given region of this buffer, or
    /// [`None`] if the region does not fit inside the buffer.
    pub fn view(&self, bounds: Rect) -> (r: Option<ImgBufView<'_, P>>)
        requires
            self.wf(),
            bounds.wf(),
        ensures
            match r {
                Some(v) => {
                    &&& self.spec_bounds().spec_contains_rect(bounds)
                    &&& v.wf()
                    &&& v.spec_buffer() == *self
                    &&& v.abs_bounds() == bounds
                },
                None => !self.spec_bounds().spec_contains_rect(bounds),
            },
    {
        if self.bounds().contains_rect(&bounds) {
            Some(ImgBufView { buffer: self, bounds })
        } else {
            None
        }
    }
}

} // verus!
