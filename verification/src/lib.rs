//! In-memory image buffers with zero-copy rectangular windows.
//!
//! An [`ImgBuf`] owns a contiguous, row-major pixel array. Read access to a
//! rectangular region goes through [`ImgBufView`]; write access goes through
//! [`ImgBufViewMut`] window descriptors, which can be subdivided into
//! provably disjoint sub-windows. [`Rect`] is the half-open bounding
//! rectangle these windows are described with.

use vstd::prelude::*;

pub mod buffer;
pub mod drawing;
pub mod iter;
pub mod pixel;
pub mod processing;
pub mod util;
pub mod view;

pub use buffer::ImgBuf;
pub use pixel::Pixel;
pub use view::{ImgBufView, ImgBufViewMut};

verus! {

/// A coordinate pair `(x, y)`.
pub type Point = (u32, u32);

/// A bounding rectangle, top-left inclusive and bottom-right exclusive.
///
/// A rect whose width or height is zero contains no points. The invariant
/// that the bottom-right corner fits in `u32` coordinates is captured by
/// [`Rect::wf`], established by every constructor and preserved by every
/// operation.
#[derive(Debug, Clone, Copy, PartialEq, Eq, Structural)]
pub struct Rect {
    pub(crate) x: u32,
    pub(crate) y: u32,
    pub(crate) width: u32,
    pub(crate) height: u32,
}

impl Rect {
    /// A rect from its parts, at the specification level.
    pub open(crate) spec fn spec_new(x: u32, y: u32, width: u32, height: u32) -> Rect {
        Rect { x, y, width, height }
    }

    /// The coordinates of the (exclusive) bottom-right corner fit in `u32`.
    pub open(crate) spec fn wf(self) -> bool {
        self.x + self.width <= u32::MAX && self.y + self.height <= u32::MAX
    }

    pub open(crate) spec fn spec_top_left(self) -> Point {
        (self.x, self.y)
    }

    pub open(crate) spec fn spec_dimensions(self) -> (u32, u32) {
        (self.width, self.height)
    }

    pub open(crate) spec fn spec_is_empty(self) -> bool {
        self.width == 0 || self.height == 0
    }

    /// Number of points contained, as a mathematical integer.
    pub open(crate) spec fn spec_len(self) -> int {
        self.width * self.height
    }

    /// Half-open containment of an absolute point.
    pub open(crate) spec fn spec_contains(self, point: Point) -> bool {
        &&& self.x <= point.0 < self.x + self.width
        &&& self.y <= point.1 < self.y + self.height
    }

    /// Containment of a point given relative to this rect's own top-left.
    pub open(crate) spec fn spec_contains_relative(self, relative_point: Point) -> bool {
        relative_point.0 < self.width && relative_point.1 < self.height
    }

    /// The absolute point a relative point translates to.
    pub open(crate) spec fn spec_abs_point_from_relative(self, relative_point: Point) -> Point {
        (
            (self.x + relative_point.0) as u32,
            (self.y + relative_point.1) as u32,
        )
    }

    /// Rect containment: both rects non-empty and `other`'s corners inside `self`.
    pub open(crate) spec fn spec_contains_rect(self, other: Rect) -> bool {
        &&& !self.spec_is_empty()
        &&& !other.spec_is_empty()
        &&& self.x <= other.x
        &&& self.y <= other.y
        &&& other.x + other.width <= self.x + self.width
        &&& other.y + other.height <= self.y + self.height
    }

    pub open(crate) spec fn spec_abs_rect_from_relative(self, other: Rect) -> Rect {
        Rect {
            x: (self.x + other.x) as u32,
            y: (self.y + other.y) as u32,
            width: other.width,
            height: other.height,
        }
    }

    pub open(crate) spec fn spec_is_completely_below(self, other: Rect) -> bool {
        self.y >= other.y + other.height
    }

    pub open(crate) spec fn spec_is_completely_to_the_right(self, other: Rect) -> bool {
        self.x >= other.x + other.width
    }

    /// The inclusive bottom-right corner; only meaningful when the rect is
    /// non-empty.
    pub open(crate) spec fn spec_inclusive_bottom_right(self) -> Point {
        ((self.x + self.width - 1) as u32, (self.y + self.height - 1) as u32)
    }

    /// This rect's own coordinate space: the same dimensions anchored at the
    /// origin.
    pub open(crate) spec fn spec_relative_bounds(self) -> Rect {
        Rect { x: 0, y: 0, width: self.width, height: self.height }
    }

    pub open(crate) spec fn spec_overlaps(self, other: Rect) -> bool {
        !(self.spec_is_empty() || other.spec_is_empty()
            || self.spec_is_completely_below(other)
            || other.spec_is_completely_below(self)
            || self.spec_is_completely_to_the_right(other)
            || other.spec_is_completely_to_the_right(self))
    }

    /// Creates a new [`Rect`] from its top-left [`Point`] and its dimensions.
    ///
    /// The bottom-right corner must fit in `u32` coordinates; see
    /// [`Rect::try_new`] for the total variant.
    pub fn new(top_left: Point, dimensions: (u32, u32)) -> (r: Self)
        requires
            top_left.0 + dimensions.0 <= u32::MAX,
            top_left.1 + dimensions.1 <= u32::MAX,
        ensures
            r.wf(),
            r.spec_top_left() == top_left,
            r.spec_dimensions() == dimensions,
    {
        Rect { x: top_left.0, y: top_left.1, width: dimensions.0, height: dimensions.1 }
    }

    /// Creates a new [`Rect`] from a top-left [`Point`] and dimensions, or
    /// returns [`None`] if the bottom-right corner would not fit in `u32`s.
    pub fn try_new(top_left: Point, dimensions: (u32, u32)) -> (r: Option<Self>)
        ensures
            match r {
                Some(rect) => {
                    &&& top_left.0 + dimensions.0 <= u32::MAX
                    &&& top_left.1 + dimensions.1 <= u32::MAX
                    &&& rect.wf()
                    &&& rect.spec_top_left() == top_left
                    &&& rect.spec_dimensions() == dimensions
                },
                None => top_left.0 + dimensions.0 > u32::MAX
                    || top_left.1 + dimensions.1 > u32::MAX,
            },
    {
        if top_left.0.checked_add(dimensions.0).is_some()
            && top_left.1.checked_add(dimensions.1).is_some()
        {
            Some(Rect { x: top_left.0, y: top_left.1, width: dimensions.0, height: dimensions.1 })
        } else {
            None
        }
    }

    /// Creates a new [`Rect`] from a top-left [`Point`] and an exclusive
    /// bottom-right [`Point`]; the top-left must not exceed the bottom-right
    /// on either axis.
    pub fn from_extremes(top_left: Point, bottom_right: Point) -> (r: Self)
        requires
            top_left.0 <= bottom_right.0,
            top_left.1 <= bottom_right.1,
        ensures
            r.wf(),
            r.spec_top_left() == top_left,
            r.spec_dimensions() == ((bottom_right.0 - top_left.0) as u32, (bottom_right.1 - top_left.1) as u32),
    {
        Rect {
            x: top_left.0,
            y: top_left.1,
            width: bottom_right.0 - top_left.0,
            height: bottom_right.1 - top_left.1,
        }
    }

    /// Creates a new empty [`Rect`] at the given top-left [`Point`].
    pub fn empty(top_left: Point) -> (r: Self)
        ensures
            r.wf(),
            r.spec_top_left() == top_left,
            r.spec_dimensions() == (0u32, 0u32),
            r.spec_is_empty(),
    {
        Rect { x: top_left.0, y: top_left.1, width: 0, height: 0 }
    }

    /// Returns the top-left [`Point`] of this [`Rect`].
    pub fn top_left(&self) -> (r: Point)
        ensures
            r == self.spec_top_left(),
    {
        (self.x, self.y)
    }

    /// Returns the exclusive bottom-right [`Point`] of this [`Rect`].
    pub fn bottom_right(&self) -> (r: Point)
        requires
            self.wf(),
        ensures
            r == ((self.spec_top_left().0 + self.spec_dimensions().0) as u32,
                  (self.spec_top_left().1 + self.spec_dimensions().1) as u32),
    {
        (self.x + self.width, self.y + self.height)
    }

    /// Returns the inclusive bottom-right [`Point`], or [`None`] if this
    /// [`Rect`] is empty.
    pub fn inclusive_bottom_right(&self) -> (r: Option<Point>)
        requires
            self.wf(),
        ensures
            match r {
                Some(p) => !self.spec_is_empty() && p == self.spec_inclusive_bottom_right(),
                None => self.spec_is_empty(),
            },
    {
        if self.is_empty() {
            None
        } else {
            Some((self.x + self.width - 1, self.y + self.height - 1))
        }
    }

    /// Returns the dimensions `(width, height)` of this [`Rect`].
    pub fn dimensions(&self) -> (r: (u32, u32))
        ensures
            r == self.spec_dimensions(),
    {
        (self.width, self.height)
    }

    /// Returns whether this [`Rect`] is empty, i.e. its width or height is zero.
    pub fn is_empty(&self) -> (r: bool)
        ensures
            r == self.spec_is_empty(),
    {
        self.width == 0 || self.height == 0
    }

    /// Returns the number of points in this [`Rect`], i.e. `width * height`.
    pub fn len(&self) -> (r: u64)
        ensures
            r == self.spec_len(),
    {
        proof {
            assert(self.width * self.height <= u32::MAX * u32::MAX) by (nonlinear_arith)
                requires
                    self.width <= u32::MAX,
                    self.height <= u32::MAX,
            ;
        }
        self.width as u64 * self.height as u64
    }

    /// Returns whether this [`Rect`] contains the given absolute point.
    pub fn contains(&self, point: Point) -> (r: bool)
        requires
            self.wf(),
        ensures
            r == self.spec_contains(point),
    {
        (self.x <= point.0)
            && (point.0 < self.x + self.width)
            && (self.y <= point.1)
            && (point.1 < self.y + self.height)
    }

    /// Returns whether this [`Rect`] contains a point given relative to its
    /// own top-left corner.
    pub fn contains_relative(&self, relative_point: Point) -> (r: bool)
        ensures
            r == self.spec_contains_relative(relative_point),
    {
        (relative_point.0 < self.width) && (relative_point.1 < self.height)
    }

    /// Translates a point relative to this [`Rect`]'s top-left corner into an
    /// absolute point.
    pub fn abs_point_from_relative(&self, relative_point: Point) -> (r: Point)
        requires
            self.spec_top_left().0 + relative_point.0 <= u32::MAX,
            self.spec_top_left().1 + relative_point.1 <= u32::MAX,
        ensures
            r == self.spec_abs_point_from_relative(relative_point),
    {
        let x = self.x + relative_point.0;
        let y = self.y + relative_point.1;
        (x, y)
    }

    /// Returns whether this [`Rect`] contains another [`Rect`]. An empty rect
    /// contains nothing and is contained by nothing.
    pub fn contains_rect(&self, other: &Rect) -> (r: bool)
        requires
            self.wf(),
            other.wf(),
        ensures
            r == self.spec_contains_rect(*other),
    {
        let other_br = other.bottom_right();

        !self.is_empty()
            && !other.is_empty()
            && self.contains(other.top_left())
            && self.contains((other_br.0 - 1, other_br.1 - 1))
    }

    /// Returns whether this [`Rect`] contains another [`Rect`] whose
    /// coordinates are relative to this rect's own top-left corner.
    pub fn contains_rect_relative(&self, other: &Rect) -> (r: bool)
        requires
            self.wf(),
            other.wf(),
        ensures
            r == self.spec_relative_bounds().spec_contains_rect(*other),
    {
        let r = Rect::new((0, 0), (self.width, self.height));
        r.contains_rect(other)
    }

    /// Translates a [`Rect`] relative to this rect's top-left corner into an
    /// absolute [`Rect`].
    pub fn abs_rect_from_relative(&self, other: Rect) -> (r: Rect)
        requires
            self.spec_top_left().0 + other.spec_top_left().0 + other.spec_dimensions().0 <= u32::MAX,
            self.spec_top_left().1 + other.spec_top_left().1 + other.spec_dimensions().1 <= u32::MAX,
        ensures
            r == self.spec_abs_rect_from_relative(other),
            r.wf(),
    {
        let x = self.x + other.x;
        let y = self.y + other.y;
        Rect::new((x, y), (other.width, other.height))
    }

    /// Returns whether this [`Rect`] lies completely below another.
    pub fn is_completely_below(&self, other: &Rect) -> (r: bool)
        requires
            other.wf(),
        ensures
            r == self.spec_is_completely_below(*other),
    {
        self.y >= other.y + other.height
    }

    /// Returns whether this [`Rect`] lies completely to the right of another.
    pub fn is_completely_to_the_right(&self, other: &Rect) -> (r: bool)
        requires
            other.wf(),
        ensures
            r == self.spec_is_completely_to_the_right(*other),
    {
        self.x >= other.x + other.width
    }

    /// Returns whether this [`Rect`] overlaps with another: both are
    /// non-empty and neither is fully separated from the other along an axis.
    pub fn overlaps(&self, other: &Rect) -> (r: bool)
        requires
            self.wf(),
            other.wf(),
        ensures
            r == self.spec_overlaps(*other),
    {
        !(self.is_empty()
            || other.is_empty()
            || self.is_completely_below(other)
            || other.is_completely_below(self)
            || self.is_completely_to_the_right(other)
            || other.is_completely_to_the_right(self))
    }
}

/// A rect contains another exactly when the other is non-empty and both of
/// its corner points, the top-left and the inclusive bottom-right, lie inside
/// the first.
pub proof fn lemma_contains_rect_characterization(a: Rect, b: Rect)
    requires
        a.wf(),
        b.wf(),
    ensures
        a.spec_contains_rect(b) <==> (!b.spec_is_empty()
            && a.spec_contains(b.spec_top_left())
            && a.spec_contains(b.spec_inclusive_bottom_right())),
{
}

/// Two rects overlap exactly when some point lies in both. In particular,
/// windows over non-overlapping rects can never reach a common pixel.
pub proof fn lemma_overlaps_iff_common_point(a: Rect, b: Rect)
    requires
        a.wf(),
        b.wf(),
    ensures
        a.spec_overlaps(b) <==> (exists|p: Point| a.spec_contains(p) && b.spec_contains(p)),
{
    if a.spec_overlaps(b) {
        let px: u32 = if a.x >= b.x { a.x } else { b.x };
        let py: u32 = if a.y >= b.y { a.y } else { b.y };
        assert(a.spec_contains((px, py)) && b.spec_contains((px, py)));
    }
}

/// Overlapping is symmetric.
pub proof fn lemma_overlaps_symmetric(a: Rect, b: Rect)
    ensures
        a.spec_overlaps(b) == b.spec_overlaps(a),
{
}

/// Translating two rects out of the same base rect's coordinate space
/// preserves whether they overlap.
pub(crate) proof fn lemma_translate_preserves_overlaps(base: Rect, a: Rect, b: Rect)
    requires
        base.x + a.x + a.width <= u32::MAX,
        base.y + a.y + a.height <= u32::MAX,
        base.x + b.x + b.width <= u32::MAX,
        base.y + b.y + b.height <= u32::MAX,
    ensures
        base.spec_abs_rect_from_relative(a).spec_overlaps(base.spec_abs_rect_from_relative(b))
            == a.spec_overlaps(b),
{
}

} // verus!
