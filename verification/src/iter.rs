//! Row-major pixel cursors with coordinates attached.
//!
//! Iteration here is by explicit cursors rather than `Iterator` impls: a
//! cursor walks a window's coordinate space in row-major order, knows exactly
//! how many positions remain, and either reads pixels through a borrowed
//! buffer ([`PixelsWithCoords`]) or names the coordinates to write through a
//! mutable window ([`PixelsWithCoordsMut`], [`PixelsMut`]).

use vstd::prelude::*;

use crate::buffer::ImgBuf;
use crate::view::{ImgBufView, ImgBufViewMut};
use crate::Point;

verus! {

/// Row-major cursor over the pixels of a read-only window, with the
/// coordinates of each pixel.
pub struct PixelsWithCoords<'buffer_ref, P> {
    pub(crate) view: ImgBufView<'buffer_ref, P>,
    pub(crate) current_x: u32,
    pub(crate) current_y: u32,
}

impl<'buffer_ref, P> PixelsWithCoords<'buffer_ref, P> {
    /// The cursor points into its window or just past its last row.
    pub open(crate) spec fn wf(self) -> bool {
        &&& self.view.wf()
        &&& self.current_x <= self.view.spec_width()
        &&& self.current_y <= self.view.spec_height()
    }

    /// The window this cursor walks.
    pub open(crate) spec fn spec_view(self) -> ImgBufView<'buffer_ref, P> {
        self.view
    }

    pub open(crate) spec fn spec_coords(self) -> Point {
        (self.current_x, self.current_y)
    }

    /// Whether every position has been handed out.
    pub open(crate) spec fn spec_done(self) -> bool {
        self.current_y >= self.view.spec_height() || self.current_x >= self.view.spec_width()
    }

    /// The number of positions not yet handed out.
    pub open(crate) spec fn spec_remaining(self) -> int {
        if self.spec_done() {
            0
        } else {
            (self.view.spec_height() - self.current_y) * self.view.spec_width() - self.current_x
        }
    }

    /// Creates a cursor at the window's top-left corner.
    pub fn new(view: ImgBufView<'buffer_ref, P>) -> (r: Self)
        requires
            view.wf(),
        ensures
            r.wf(),
            r.spec_view() == view,
            r.spec_coords() == (0u32, 0u32),
    {
        PixelsWithCoords { view, current_x: 0, current_y: 0 }
    }

    /// Returns the pixel at the cursor together with its window-relative
    /// coordinates and advances, or [`None`] once the window is exhausted.
    pub fn next(&mut self) -> (r: Option<(Point, P)>) where P: Copy
        requires
            old(self).wf(),
        ensures
            final(self).wf(),
            final(self).spec_view() == old(self).spec_view(),
            match r {
                Some(pp) => {
                    &&& !old(self).spec_done()
                    &&& pp.0 == old(self).spec_coords()
                    &&& pp.1 == old(self).spec_view().pix(pp.0.0 as int, pp.0.1 as int)
                    &&& final(self).spec_remaining() == old(self).spec_remaining() - 1
                },
                None => old(self).spec_done() && *final(self) == *old(self),
            },
    {
        let width = self.view.width();
        let height = self.view.height();
        if self.current_y < height && self.current_x < width {
            let coords = (self.current_x, self.current_y);
            let p = *self.view.pixel(coords).unwrap();
            self.current_x = self.current_x + 1;
            if self.current_x == width {
                self.current_x = 0;
                self.current_y = self.current_y + 1;
            }
            proof {
                crate::util::lemma_cursor_advance(
                    coords.0 as int,
                    coords.1 as int,
                    width as int,
                    height as int,
                );
            }
            Some((coords, p))
        } else {
            None
        }
    }

    /// The exact number of pixels this cursor has still to hand out.
    pub fn remaining(&self) -> (r: usize)
        requires
            self.wf(),
        ensures
            r == self.spec_remaining(),
    {
        let width = self.view.width();
        let height = self.view.height();
        if self.current_y < height && self.current_x < width {
            proof {
                self.view.spec_buffer().lemma_size_bound();
                crate::util::lemma_cursor_remaining_bounds(
                    self.current_x as int,
                    self.current_y as int,
                    width as int,
                    height as int,
                    self.view.spec_buffer().spec_width() as int,
                    self.view.spec_buffer().spec_height() as int,
                );
            }
            ((height - self.current_y) as usize) * (width as usize) - (self.current_x as usize)
        } else {
            0
        }
    }
}

/// Row-major coordinate cursor for writing through a mutable window: it hands
/// out each window-relative coordinate once, in row-major order, with an
/// exact remaining count.
pub struct PixelsWithCoordsMut {
    pub(crate) window: ImgBufViewMut,
    pub(crate) current_x: u32,
    pub(crate) current_y: u32,
}

impl PixelsWithCoordsMut {
    /// The cursor points into its window or just past its last row.
    pub open(crate) spec fn wf(self) -> bool {
        &&& self.window.wf()
        &&& self.current_x <= self.window.spec_width()
        &&& self.current_y <= self.window.spec_height()
    }

    /// The window this cursor walks.
    pub open(crate) spec fn spec_window(self) -> ImgBufViewMut {
        self.window
    }

    pub open(crate) spec fn spec_coords(self) -> Point {
        (self.current_x, self.current_y)
    }

    /// Whether every position has been handed out.
    pub open(crate) spec fn spec_done(self) -> bool {
        self.current_y >= self.window.spec_height() || self.current_x >= self.window.spec_width()
    }

    /// The number of positions not yet handed out.
    pub open(crate) spec fn spec_remaining(self) -> int {
        if self.spec_done() {
            0
        } else {
            (self.window.spec_height() - self.current_y) * self.window.spec_width()
                - self.current_x
        }
    }

    /// Creates a cursor at the window's top-left corner.
    pub fn new(window: ImgBufViewMut) -> (r: Self)
        requires
            window.wf(),
        ensures
            r.wf(),
            r.spec_window() == window,
            r.spec_coords() == (0u32, 0u32),
    {
        PixelsWithCoordsMut { window, current_x: 0, current_y: 0 }
    }

    /// Returns the window-relative coordinates at the cursor and advances, or
    /// [`None`] once the window is exhausted. Every returned coordinate lies
    /// in the window, so it can be written through [`ImgBufViewMut::set_pixel`].
    pub fn next(&mut self) -> (r: Option<Point>)
        requires
            old(self).wf(),
        ensures
            final(self).wf(),
            final(self).spec_window() == old(self).spec_window(),
            match r {
                Some(p) => {
                    &&& !old(self).spec_done()
                    &&& p == old(self).spec_coords()
                    &&& old(self).spec_window().abs_bounds().spec_contains_relative(p)
                    &&& final(self).spec_remaining() == old(self).spec_remaining() - 1
                },
                None => old(self).spec_done() && *final(self) == *old(self),
            },
    {
        let width = self.window.width();
        let height = self.window.height();
        if self.current_y < height && self.current_x < width {
            let coords = (self.current_x, self.current_y);
            self.current_x = self.current_x + 1;
            if self.current_x == width {
                self.current_x = 0;
                self.current_y = self.current_y + 1;
            }
            proof {
                crate::util::lemma_cursor_advance(
                    coords.0 as int,
                    coords.1 as int,
                    width as int,
                    height as int,
                );
            }
            Some(coords)
        } else {
            None
        }
    }

    /// The exact number of coordinates this cursor has still to hand out.
    pub fn remaining<P>(&self, buf: &ImgBuf<P>) -> (r: usize)
        requires
            self.wf(),
            self.spec_window().valid_for(*buf),
        ensures
            r == self.spec_remaining(),
    {
        let width = self.window.width();
        let height = self.window.height();
        if self.current_y < height && self.current_x < width {
            proof {
                buf.lemma_size_bound();
                crate::util::lemma_cursor_remaining_bounds(
                    self.current_x as int,
                    self.current_y as int,
                    width as int,
                    height as int,
                    buf.spec_width() as int,
                    buf.spec_height() as int,
                );
            }
            ((height - self.current_y) as usize) * (width as usize) - (self.current_x as usize)
        } else {
            0
        }
    }
}

/// Row-major write cursor over a mutable window: each call writes one pixel
/// and moves on.
pub struct PixelsMut {
    pub(crate) inner: PixelsWithCoordsMut,
}

impl PixelsMut {
    pub open(crate) spec fn wf(self) -> bool {
        self.inner.wf()
    }

    /// The window this cursor walks.
    pub open(crate) spec fn spec_window(self) -> ImgBufViewMut {
        self.inner.spec_window()
    }

    /// The number of positions not yet written.
    pub open(crate) spec fn spec_remaining(self) -> int {
        self.inner.spec_remaining()
    }

    pub open(crate) spec fn spec_coords(self) -> Point {
        self.inner.spec_coords()
    }

    pub open(crate) spec fn spec_done(self) -> bool {
        self.inner.spec_done()
    }

    /// Creates a write cursor at the window's top-left corner.
    pub fn new(window: ImgBufViewMut) -> (r: Self)
        requires
            window.wf(),
        ensures
            r.wf(),
            r.spec_window() == window,
            r.spec_coords() == (0u32, 0u32),
    {
        PixelsMut { inner: PixelsWithCoordsMut::new(window) }
    }

    /// Writes `value` at the cursor's position of the window and advances.
    /// Returns `false`, writing nothing, once the window is exhausted.
    pub fn set_next<P>(&mut self, buf: &mut ImgBuf<P>, value: P) -> (ok: bool)
        requires
            old(self).wf(),
            old(self).spec_window().valid_for(*old(buf)),
        ensures
            final(self).wf(),
            final(self).spec_window() == old(self).spec_window(),
            old(self).spec_window().valid_for(*final(buf)),
            final(buf).spec_dimensions() == old(buf).spec_dimensions(),
            ok <==> !old(self).spec_done(),
            ok ==> {
                let coords = old(self).spec_coords();
                &&& old(self).spec_window().pix_of(
                    *final(buf),
                    coords.0 as int,
                    coords.1 as int,
                ) == value
                &&& final(self).spec_remaining() == old(self).spec_remaining() - 1
                &&& forall|x: int, y: int|
                    0 <= x < old(buf).spec_width() && 0 <= y < old(buf).spec_height()
                        && !(x == old(self).spec_window().abs_point(coords).0
                            && y == old(self).spec_window().abs_point(coords).1)
                        ==> #[trigger] final(buf).pix(x, y) == old(buf).pix(x, y)
            },
            !ok ==> *final(buf) == *old(buf) && *final(self) == *old(self),
    {
        let window = self.inner.window;
        match self.inner.next() {
            Some(coords) => {
                let ok = window.set_pixel(buf, coords, value);
                proof {
                    assert(ok);
                }
                true
            },
            None => false,
        }
    }
}

impl<P> ImgBuf<P> {
    /// Returns a row-major cursor over this buffer's pixels and coordinates.
    pub fn pixels_with_coords(&self) -> (r: PixelsWithCoords<'_, P>)
        requires
            self.wf(),
        ensures
            r.wf(),
            r.spec_view().spec_buffer() == *self,
            r.spec_view().abs_bounds() == self.spec_bounds(),
            r.spec_coords() == (0u32, 0u32),
    {
        PixelsWithCoords::new(ImgBufView { buffer: self, bounds: self.bounds() })
    }

    /// Returns a row-major coordinate cursor for writing every pixel of this
    /// buffer.
    pub fn pixels_with_coords_mut(&self) -> (r: PixelsWithCoordsMut)
        requires
            self.wf(),
        ensures
            r.wf(),
            r.spec_window().valid_for(*self),
            r.spec_window().abs_bounds() == self.spec_bounds(),
            r.spec_coords() == (0u32, 0u32),
    {
        PixelsWithCoordsMut::new(self.full_window())
    }
}

impl<'buffer_ref, P> ImgBufView<'buffer_ref, P> {
    /// Returns a row-major cursor over this window's pixels and coordinates.
    pub fn pixels_with_coords(&self) -> (r: PixelsWithCoords<'buffer_ref, P>)
        requires
            self.wf(),
        ensures
            r.wf(),
            r.spec_view() == *self,
            r.spec_coords() == (0u32, 0u32),
    {
        PixelsWithCoords::new(ImgBufView { buffer: self.buffer, bounds: self.bounds })
    }
}

impl ImgBufViewMut {
    /// Returns a row-major read cursor over this window's pixels of `buf`,
    /// with their window-relative coordinates.
    pub fn pixels_with_coords<'buffer_ref, P>(&self, buf: &'buffer_ref ImgBuf<P>) -> (r:
        PixelsWithCoords<'buffer_ref, P>)
        requires
            self.valid_for(*buf),
        ensures
            r.wf(),
            r.spec_view().spec_buffer() == *buf,
            r.spec_view().abs_bounds() == self.abs_bounds(),
            r.spec_coords() == (0u32, 0u32),
    {
        PixelsWithCoords::new(ImgBufView { buffer: buf, bounds: self.bounds })
    }

    /// Returns a row-major coordinate cursor for writing every pixel of this
    /// window.
    pub fn pixels_with_coords_mut(&self) -> (r: PixelsWithCoordsMut)
        requires
            self.wf(),
        ensures
            r.wf(),
            r.spec_window() == *self,
            r.spec_coords() == (0u32, 0u32),
    {
        PixelsWithCoordsMut::new(*self)
    }
}

} // verus!
