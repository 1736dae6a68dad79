//! The owned image buffer.

use vstd::prelude::*;

use crate::pixel::Pixel;
use crate::util::{checked_size, lemma_row_major_index_bounds};
use crate::{Point, Rect};

verus! {

/// An image buffer: a contiguous, row-major array of pixels together with
/// explicit width and height.
///
/// The invariant that the array holds exactly `width * height` pixels is
/// captured by [`ImgBuf::wf`]; every constructor establishes it and every
/// operation preserves it.
#[derive(Debug, Clone)]
pub struct ImgBuf<P> {
    pub(crate) width: u32,
    pub(crate) height: u32,
    pub(crate) data: Vec<P>,
}

impl<P> ImgBuf<P> {
    /// The storage holds exactly one pixel per coordinate.
    pub open(crate) spec fn wf(self) -> bool {
        self.data@.len() == self.width * self.height
    }

    pub open(crate) spec fn spec_width(self) -> u32 {
        self.width
    }

    pub open(crate) spec fn spec_height(self) -> u32 {
        self.height
    }

    pub open(crate) spec fn spec_dimensions(self) -> (u32, u32) {
        (self.width, self.height)
    }

    /// The whole buffer as a [`Rect`] anchored at the origin.
    pub open(crate) spec fn spec_bounds(self) -> Rect {
        Rect { x: 0, y: 0, width: self.width, height: self.height }
    }

    /// The pixels in row-major order.
    pub open(crate) spec fn contents(self) -> Seq<P> {
        self.data@
    }

    /// The pixel at absolute coordinates `(x, y)`.
    pub open(crate) spec fn pix(self, x: int, y: int) -> P {
        self.data@[y * self.width + x]
    }

    /// A well-formed buffer's pixel count fits in the platform size type,
    /// because its storage already holds that many pixels.
    pub(crate) proof fn lemma_size_bound(self)
        requires
            self.wf(),
        ensures
            self.width * self.height <= usize::MAX,
    {
        vstd::std_specs::vec::axiom_spec_len(&self.data);
    }

    /// Creates an image buffer that adopts externally built storage. The
    /// storage must hold exactly `width * height` pixels.
    pub fn from_container(container: Vec<P>, width: u32, height: u32) -> (r: Self)
        requires
            container@.len() == width * height,
        ensures
            r.wf(),
            r.spec_width() == width,
            r.spec_height() == height,
            r.contents() == container@,
    {
        ImgBuf { width, height, data: container }
    }

    /// Returns a reference to the inner container of pixels.
    pub fn container(&self) -> (r: &Vec<P>)
        ensures
            r@ == self.contents(),
    {
        &self.data
    }

    /// Consumes this image buffer and returns its container.
    pub fn into_container(self) -> (r: Vec<P>)
        ensures
            r@ == self.contents(),
    {
        self.data
    }

    /// Returns the pixels of this buffer in row-major (top-left to
    /// bottom-right) order.
    pub fn as_pixel_slice(&self) -> (r: &[P])
        ensures
            r@ == self.contents(),
    {
        self.data.as_slice()
    }

    /// The width of this buffer.
    pub fn width(&self) -> (r: u32)
        ensures
            r == self.spec_width(),
    {
        self.width
    }

    /// The height of this buffer.
    pub fn height(&self) -> (r: u32)
        ensures
            r == self.spec_height(),
    {
        self.height
    }

    /// The dimensions of this buffer. Equivalent to `(width, height)`.
    pub fn dimensions(&self) -> (r: (u32, u32))
        ensures
            r == self.spec_dimensions(),
    {
        (self.width, self.height)
    }

    /// The size of this buffer in pixels. Equivalent to `width * height`.
    pub fn size(&self) -> (r: usize)
        requires
            self.wf(),
        ensures
            r == self.spec_width() * self.spec_height(),
    {
        proof {
            self.lemma_size_bound();
        }
        checked_size(self.width, self.height)
    }

    /// Returns a [`Rect`] with top-left point `(0, 0)` and this buffer's
    /// dimensions.
    pub fn bounds(&self) -> (r: Rect)
        ensures
            r == self.spec_bounds(),
            r.wf(),
    {
        Rect::new((0, 0), (self.width, self.height))
    }

    /// Returns a reference to the pixel at the given coordinates, or [`None`]
    /// if the coordinates lie outside the buffer.
    pub fn pixel(&self, coords: Point) -> (r: Option<&P>)
        requires
            self.wf(),
        ensures
            match r {
                Some(p) => coords.0 < self.spec_width() && coords.1 < self.spec_height()
                    && *p == self.pix(coords.0 as int, coords.1 as int),
                None => coords.0 >= self.spec_width() || coords.1 >= self.spec_height(),
            },
    {
        if coords.0 < self.width && coords.1 < self.height {
            proof {
                self.lemma_size_bound();
                lemma_row_major_index_bounds(
                    coords.0 as int,
                    coords.1 as int,
                    self.width as int,
                    self.height as int,
                );
            }
            let index = crate::util::index_point(coords, self.width);
            Some(&self.data[index])
        } else {
            None
        }
    }

    /// Writes the pixel at the given coordinates and reports whether the
    /// coordinates were inside the buffer; a buffer outside write changes
    /// nothing.
    pub fn set_pixel(&mut self, coords: Point, value: P) -> (ok: bool)
        requires
            old(self).wf(),
        ensures
            final(self).wf(),
            final(self).spec_width() == old(self).spec_width(),
            final(self).spec_height() == old(self).spec_height(),
            ok <==> (coords.0 < old(self).spec_width() && coords.1 < old(self).spec_height()),
            ok ==> final(self).contents() == old(self).contents().update(
                coords.1 * old(self).spec_width() + coords.0,
                value,
            ),
            !ok ==> *final(self) == *old(self),
    {
        if coords.0 < self.width && coords.1 < self.height {
            proof {
                self.lemma_size_bound();
                lemma_row_major_index_bounds(
                    coords.0 as int,
                    coords.1 as int,
                    self.width as int,
                    self.height as int,
                );
            }
            let index = crate::util::index_point(coords, self.width);
            self.data[index] = value;
            true
        } else {
            false
        }
    }

    /// Creates a new buffer of the given dimensions filled with the blank
    /// pixel value. The pixel count must fit in the platform size type.
    pub fn new(width: u32, height: u32) -> (r: Self) where P: Pixel
        requires
            width * height <= usize::MAX,
        ensures
            r.wf(),
            r.spec_width() == width,
            r.spec_height() == height,
            forall|x: int, y: int| 0 <= x < width && 0 <= y < height
                ==> #[trigger] r.pix(x, y) == P::spec_default_pixel(),
    {
        let size = checked_size(width, height);
        let mut data: Vec<P> = Vec::new();
        let mut i: usize = 0;
        while i < size
            invariant
                i <= size,
                size == width * height,
                data@.len() == i,
                forall|j: int| 0 <= j < i ==> data@[j] == P::spec_default_pixel(),
            decreases size - i,
        {
            data.push(P::default_pixel());
            i = i + 1;
        }
        let r = ImgBuf { width, height, data };
        proof {
            assert forall|x: int, y: int| 0 <= x < width && 0 <= y < height
                implies #[trigger] r.pix(x, y) == P::spec_default_pixel() by {
                lemma_row_major_index_bounds(x, y, width as int, height as int);
            }
        }
        r
    }

    /// Creates a new buffer of the given dimensions whose pixels are produced
    /// by a generator function, each called with the coordinates of the pixel
    /// it produces. The pixel count must fit in the platform size type.
    pub fn from_fn<F: Fn(Point) -> P>(width: u32, height: u32, f: F) -> (r: Self)
        requires
            width * height <= usize::MAX,
            forall|p: Point| p.0 < width && p.1 < height ==> #[trigger] call_requires(f, (p,)),
        ensures
            r.wf(),
            r.spec_width() == width,
            r.spec_height() == height,
            forall|x: u32, y: u32| x < width && y < height
                ==> call_ensures(f, (((x, y)),), #[trigger] r.pix(x as int, y as int)),
    {
        let size = checked_size(width, height);
        let mut data: Vec<P> = Vec::new();
        let mut y: u32 = 0;
        while y < height
            invariant
                y <= height,
                width * height <= usize::MAX,
                data@.len() == y * width,
                forall|p: Point| p.0 < width && p.1 < height ==> #[trigger] call_requires(f, (p,)),
                forall|i: u32, j: u32| i < width && j < y
                    ==> call_ensures(f, (((i, j)),), #[trigger] data@[j * width + i]),
            decreases height - y,
        {
            let mut x: u32 = 0;
            while x < width
                invariant
                    x <= width,
                    y < height,
                    width * height <= usize::MAX,
                    data@.len() == y * width + x,
                    forall|p: Point| p.0 < width && p.1 < height
                        ==> #[trigger] call_requires(f, (p,)),
                    forall|i: u32, j: u32| i < width && j < y
                        ==> call_ensures(f, (((i, j)),), #[trigger] data@[j * width + i]),
                    forall|i: u32| i < x
                        ==> call_ensures(f, (((i, y)),), #[trigger] data@[y * width + i]),
                decreases width - x,
            {
                proof {
                    lemma_row_major_index_bounds(x as int, y as int, width as int, height as int);
                }
                data.push(f((x, y)));
                x = x + 1;
                proof {
                    assert forall|i: u32, j: u32| i < width && j < y
                        implies call_ensures(f, (((i, j)),), #[trigger] data@[j * width + i]) by {
                        lemma_row_major_index_bounds(i as int, j as int, width as int, height as int);
                        crate::util::lemma_row_major_strict_rows(
                            i as int, j as int, y as int, width as int,
                        );
                    }
                }
            }
            proof {
                assert((y + 1) * width == y * width + width) by (nonlinear_arith);
            }
            y = y + 1;
            proof {
                assert forall|i: u32, j: u32| i < width && j < y
                    implies call_ensures(f, (((i, j)),), #[trigger] data@[j * width + i]) by {
                    lemma_row_major_index_bounds(i as int, j as int, width as int, height as int);
                }
            }
        }
        proof {
            assert(height * width == width * height) by (nonlinear_arith);
        }
        let r = ImgBuf { width, height, data };
        r
    }

    /// Copies another buffer of the same dimensions into this one.
    pub fn copy_from_buffer(&mut self, buffer: &Self) where P: Copy
        requires
            old(self).wf(),
            buffer.wf(),
            old(self).spec_dimensions() == buffer.spec_dimensions(),
        ensures
            final(self).wf(),
            final(self).spec_dimensions() == old(self).spec_dimensions(),
            final(self).contents() == buffer.contents(),
    {
        let len = self.data.len();
        let mut i: usize = 0;
        while i < len
            invariant
                i <= len,
                len == self.data@.len(),
                self.data@.len() == buffer.data@.len(),
                self.width == old(self).width,
                self.height == old(self).height,
                self.data@.len() == old(self).data@.len(),
                forall|j: int| 0 <= j < i ==> self.data@[j] == buffer.data@[j],
            decreases len - i,
        {
            self.data[i] = buffer.data[i];
            i = i + 1;
        }
        proof {
            assert(self.data@ =~= buffer.data@);
        }
    }

    /// Converts this image buffer into another by applying a mapping
    /// function to each of its pixels.
    pub fn map<P2, F: Fn(P) -> P2>(self, f: F) -> (r: ImgBuf<P2>) where P: Copy
        requires
            self.wf(),
            forall|i: int| 0 <= i < self.contents().len()
                ==> #[trigger] call_requires(f, (self.contents()[i],)),
        ensures
            r.wf(),
            r.spec_dimensions() == self.spec_dimensions(),
            r.contents().len() == self.contents().len(),
            forall|i: int| 0 <= i < r.contents().len()
                ==> call_ensures(f, (self.contents()[i],), #[trigger] r.contents()[i]),
    {
        let len = self.data.len();
        let mut data: Vec<P2> = Vec::new();
        let mut i: usize = 0;
        while i < len
            invariant
                i <= len,
                len == self.contents().len(),
                data@.len() == i,
                forall|k: int| 0 <= k < self.contents().len()
                    ==> #[trigger] call_requires(f, (self.contents()[k],)),
                forall|k: int| 0 <= k < i
                    ==> call_ensures(f, (self.contents()[k],), #[trigger] data@[k]),
            decreases len - i,
        {
            proof {
                assert(self.data@[i as int] == self.contents()[i as int]);
            }
            data.push(f(self.data[i]));
            i = i + 1;
        }
        ImgBuf { width: self.width, height: self.height, data }
    }

    /// Converts this image buffer into another by applying a mapping
    /// function to each of its pixels; alias of [`ImgBuf::map`] kept for
    /// callers that name the container type explicitly.
    pub fn map_vec<P2, F: Fn(P) -> P2>(self, f: F) -> (r: ImgBuf<P2>) where P: Copy
        requires
            self.wf(),
            forall|i: int| 0 <= i < self.contents().len()
                ==> #[trigger] call_requires(f, (self.contents()[i],)),
        ensures
            r.wf(),
            r.spec_dimensions() == self.spec_dimensions(),
            r.contents().len() == self.contents().len(),
            forall|i: int| 0 <= i < r.contents().len()
                ==> call_ensures(f, (self.contents()[i],), #[trigger] r.contents()[i]),
    {
        self.map(f)
    }
}

} // verus!
