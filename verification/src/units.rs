//! Lengths in app units and the plain geometry built from them.
//!
//! Every length is an [`Au`], a whole number of sixtieths of a pixel kept
//! between [`MIN_AU`] and [`MAX_AU`]. Sums and differences saturate at those
//! bounds, so arithmetic on lengths in range never leaves the range.

use vstd::prelude::*;

verus! {

/// The smallest length, in app units.
pub const MIN_AU: i32 = -1073741823;

/// The largest length, in app units.
pub const MAX_AU: i32 = 1073741823;

/// A length in app units.
#[derive(Clone, Copy, Debug, PartialEq, Eq, Structural)]
pub struct Au(pub i32);

impl Au {
    /// Whether the length lies between [`MIN_AU`] and [`MAX_AU`].
    pub open spec fn in_range(self) -> bool {
        MIN_AU <= self.0 <= MAX_AU
    }

    /// The length nearest to `v` that is in range.
    pub open spec fn clamp(v: int) -> Au {
        if v < MIN_AU {
            Au(MIN_AU)
        } else if v > MAX_AU {
            Au(MAX_AU)
        } else {
            Au(v as i32)
        }
    }

    /// Saturating sum.
    pub open spec fn plus(self, other: Au) -> Au {
        Au::clamp(self.0 + other.0)
    }

    /// Saturating difference.
    pub open spec fn minus(self, other: Au) -> Au {
        Au::clamp(self.0 - other.0)
    }

    /// `self` where it is positive, zero otherwise.
    pub open spec fn or_zero(self) -> Au {
        if self.0 > 0 {
            self
        } else {
            Au(0)
        }
    }

    /// The smaller of two lengths.
    pub open spec fn min(self, other: Au) -> Au {
        if self.0 <= other.0 {
            self
        } else {
            other
        }
    }

    /// The larger of two lengths.
    pub open spec fn max(self, other: Au) -> Au {
        if self.0 >= other.0 {
            self
        } else {
            other
        }
    }

    /// Builds a length, saturating at the bounds.
    pub fn new(value: i32) -> (r: Au)
        ensures
            r == Au::clamp(value as int),
            r.in_range(),
    {
        if value < MIN_AU {
            Au(MIN_AU)
        } else if value > MAX_AU {
            Au(MAX_AU)
        } else {
            Au(value)
        }
    }

    /// The zero length.
    pub fn zero() -> (r: Au)
        ensures
            r == Au(0),
    {
        Au(0)
    }

    /// Whether the length is in range.
    pub fn is_in_range(self) -> (r: bool)
        ensures
            r == self.in_range(),
    {
        MIN_AU <= self.0 && self.0 <= MAX_AU
    }

    /// Saturating sum of two lengths in range.
    pub fn add(self, other: Au) -> (r: Au)
        requires
            self.in_range(),
            other.in_range(),
        ensures
            r == self.plus(other),
            r.in_range(),
    {
        au_add(self, other)
    }

    /// Saturating difference of two lengths in range.
    pub fn sub(self, other: Au) -> (r: Au)
        requires
            self.in_range(),
            other.in_range(),
        ensures
            r == self.minus(other),
            r.in_range(),
    {
        au_sub(self, other)
    }

    /// `self` where it is positive, zero otherwise.
    pub fn positive_or_zero(self) -> (r: Au)
        ensures
            r == self.or_zero(),
    {
        if self.0 > 0 {
            self
        } else {
            Au(0)
        }
    }

    /// The smaller of two lengths.
    pub fn min_of(self, other: Au) -> (r: Au)
        ensures
            r == self.min(other),
    {
        if self.0 <= other.0 {
            self
        } else {
            other
        }
    }

    /// The larger of two lengths.
    pub fn max_of(self, other: Au) -> (r: Au)
        ensures
            r == self.max(other),
    {
        if self.0 >= other.0 {
            self
        } else {
            other
        }
    }
}

/// `app_units::Au + app_units::Au`: the sum of the two numbers, brought back
/// between `MIN_AU` and `MAX_AU`. The sum itself is formed in `i32`, which
/// two lengths in range cannot overflow.
#[verifier::external_body]
fn au_add(a: Au, b: Au) -> (r: Au)
    requires
        a.in_range(),
        b.in_range(),
    ensures
        r == a.plus(b),
{
    let sum = app_units::Au(a.0) + app_units::Au(b.0);
    Au(sum.0)
}

/// `app_units::Au - app_units::Au`: the difference of the two numbers,
/// brought back between `MIN_AU` and `MAX_AU`. The difference itself is
/// formed in `i32`, which two lengths in range cannot overflow.
#[verifier::external_body]
fn au_sub(a: Au, b: Au) -> (r: Au)
    requires
        a.in_range(),
        b.in_range(),
    ensures
        r == a.minus(b),
{
    let difference = app_units::Au(a.0) - app_units::Au(b.0);
    Au(difference.0)
}

/// A displacement.
#[derive(Clone, Copy, Debug, PartialEq, Eq, Structural)]
pub struct Vector2D {
    pub x: Au,
    pub y: Au,
}

impl Vector2D {
    /// Whether every length is in range.
    pub open spec fn in_range(self) -> bool {
        self.x.in_range() && self.y.in_range()
    }

    /// Whether every length is in range.
    pub fn is_in_range(&self) -> (r: bool)
        ensures
            r == self.in_range(),
    {
        self.x.is_in_range() && self.y.is_in_range()
    }

    /// Builds the value from its parts.
    pub fn new(x: Au, y: Au) -> (r: Vector2D)
        ensures
            r == (Vector2D { x, y }),
    {
        Vector2D { x, y }
    }

    /// Every length zero.
    pub fn zero() -> (r: Vector2D)
        ensures
            r == (Vector2D { x: Au(0), y: Au(0) }),
    {
        Vector2D { x: Au(0), y: Au(0) }
    }
}

/// A position.
#[derive(Clone, Copy, Debug, PartialEq, Eq, Structural)]
pub struct Point2D {
    pub x: Au,
    pub y: Au,
}

impl Point2D {
    /// Whether every length is in range.
    pub open spec fn in_range(self) -> bool {
        self.x.in_range() && self.y.in_range()
    }

    /// The point displaced by `by`, each coordinate saturating.
    pub open spec fn plus(self, by: Vector2D) -> Point2D {
        Point2D { x: self.x.plus(by.x), y: self.y.plus(by.y) }
    }

    /// The displacement from the origin to this point.
    pub open spec fn as_vector(self) -> Vector2D {
        Vector2D { x: self.x, y: self.y }
    }

    /// Whether every length is in range.
    pub fn is_in_range(&self) -> (r: bool)
        ensures
            r == self.in_range(),
    {
        self.x.is_in_range() && self.y.is_in_range()
    }

    /// Builds the value from its parts.
    pub fn new(x: Au, y: Au) -> (r: Point2D)
        ensures
            r == (Point2D { x, y }),
    {
        Point2D { x, y }
    }

    /// Every length zero.
    pub fn zero() -> (r: Point2D)
        ensures
            r == (Point2D { x: Au(0), y: Au(0) }),
    {
        Point2D { x: Au(0), y: Au(0) }
    }

    /// The displacement from the origin to this point.
    pub fn to_vector(self) -> (r: Vector2D)
        ensures
            r == self.as_vector(),
    {
        Vector2D { x: self.x, y: self.y }
    }

    /// The point displaced by `by`.
    pub fn add_vector(self, by: Vector2D) -> (r: Point2D)
        requires
            self.in_range(),
            by.in_range(),
        ensures
            r == self.plus(by),
            r.in_range(),
    {
        point_add_vector(self, by)
    }
}

/// euclid's `Point2D + Vector2D` over `app_units::Au`: each coordinate of the
/// point plus the matching coordinate of the vector, by the saturating sum of
/// lengths.
#[verifier::external_body]
fn point_add_vector(p: Point2D, by: Vector2D) -> (r: Point2D)
    requires
        p.in_range(),
        by.in_range(),
    ensures
        r == p.plus(by),
{
    let point = euclid::default::Point2D::new(app_units::Au(p.x.0), app_units::Au(p.y.0));
    let vector = euclid::default::Vector2D::new(app_units::Au(by.x.0), app_units::Au(by.y.0));
    let moved = point + vector;
    Point2D { x: Au(moved.x.0), y: Au(moved.y.0) }
}

/// An extent.
#[derive(Clone, Copy, Debug, PartialEq, Eq, Structural)]
pub struct Size2D {
    pub width: Au,
    pub height: Au,
}

impl Size2D {
    /// Whether every length is in range.
    pub open spec fn in_range(self) -> bool {
        self.width.in_range() && self.height.in_range()
    }

    /// Whether every length is in range.
    pub fn is_in_range(&self) -> (r: bool)
        ensures
            r == self.in_range(),
    {
        self.width.is_in_range() && self.height.is_in_range()
    }

    /// Builds the value from its parts.
    pub fn new(width: Au, height: Au) -> (r: Size2D)
        ensures
            r == (Size2D { width, height }),
    {
        Size2D { width, height }
    }

    /// Every length zero.
    pub fn zero() -> (r: Size2D)
        ensures
            r == (Size2D { width: Au(0), height: Au(0) }),
    {
        Size2D { width: Au(0), height: Au(0) }
    }
}

/// An axis-aligned rectangle, given by its top left corner and its extent.
#[derive(Clone, Copy, Debug, PartialEq, Eq, Structural)]
pub struct Rect {
    pub origin: Point2D,
    pub size: Size2D,
}

impl Rect {
    /// Whether every length is in range.
    pub open spec fn in_range(self) -> bool {
        self.origin.in_range() && self.size.in_range()
    }

    /// The corner opposite the origin.
    pub open spec fn far_corner(self) -> Point2D {
        Point2D { x: self.origin.x.plus(self.size.width), y: self.origin.y.plus(self.size.height) }
    }

    /// Whether the rectangle covers no area.
    pub open spec fn is_empty(self) -> bool {
        !(self.far_corner().x.0 > self.origin.x.0 && self.far_corner().y.0 > self.origin.y.0)
    }

    /// The rectangle displaced by `by`.
    pub open spec fn translated(self, by: Vector2D) -> Rect {
        Rect { origin: self.origin.plus(by), size: self.size }
    }

    /// The rectangle spanned by two corners.
    pub open spec fn between(near: Point2D, far: Point2D) -> Rect {
        Rect {
            origin: near,
            size: Size2D { width: far.x.minus(near.x), height: far.y.minus(near.y) },
        }
    }

    /// The smallest rectangle that covers both, where neither is empty; an
    /// empty rectangle contributes nothing.
    pub open spec fn united(self, other: Rect) -> Rect {
        if other.is_empty() {
            Rect::between(self.origin, self.far_corner())
        } else if self.is_empty() {
            Rect::between(other.origin, other.far_corner())
        } else {
            Rect::between(
                Point2D { x: self.origin.x.min(other.origin.x), y: self.origin.y.min(other.origin.y) },
                Point2D {
                    x: self.far_corner().x.max(other.far_corner().x),
                    y: self.far_corner().y.max(other.far_corner().y),
                },
            )
        }
    }

    /// Whether every length is in range.
    pub fn is_in_range(&self) -> (r: bool)
        ensures
            r == self.in_range(),
    {
        self.origin.is_in_range() && self.size.is_in_range()
    }

    /// Builds the value from its parts.
    pub fn new(origin: Point2D, size: Size2D) -> (r: Rect)
        ensures
            r == (Rect { origin, size }),
    {
        Rect { origin, size }
    }

    /// Every length zero.
    pub fn zero() -> (r: Rect)
        ensures
            r == (Rect {
                origin: Point2D { x: Au(0), y: Au(0) },
                size: Size2D { width: Au(0), height: Au(0) },
            }),
    {
        Rect { origin: Point2D::zero(), size: Size2D::zero() }
    }

    /// The rectangle displaced by `by`.
    pub fn translate(self, by: Vector2D) -> (r: Rect)
        requires
            self.in_range(),
            by.in_range(),
        ensures
            r == self.translated(by),
            r.in_range(),
    {
        Rect { origin: self.origin.add_vector(by), size: self.size }
    }

    /// The origin and the extent as four numbers: x, y, width, height.
    pub open spec fn parts(self) -> (i32, i32, i32, i32) {
        (self.origin.x.0, self.origin.y.0, self.size.width.0, self.size.height.0)
    }

    /// The rectangle with the given x, y, width and height.
    pub open spec fn from_parts(p: (i32, i32, i32, i32)) -> Rect {
        Rect {
            origin: Point2D { x: Au(p.0), y: Au(p.1) },
            size: Size2D { width: Au(p.2), height: Au(p.3) },
        }
    }

    /// The union of two rectangles.
    pub fn union(self, other: Rect) -> (r: Rect)
        requires
            self.in_range(),
            other.in_range(),
        ensures
            r == self.united(other),
            r.in_range(),
    {
        let a: (i32, i32, i32, i32) = (self.origin.x.0, self.origin.y.0, self.size.width.0, self.size.height.0);
        let b: (i32, i32, i32, i32) = (other.origin.x.0, other.origin.y.0, other.size.width.0, other.size.height.0);
        let u: (i32, i32, i32, i32) = rect_union(a, b);
        Rect {
            origin: Point2D { x: Au(u.0), y: Au(u.1) },
            size: Size2D { width: Au(u.2), height: Au(u.3) },
        }
    }
}

/// euclid's `Rect::union` over `app_units::Au`, on rectangles given as x, y,
/// width and height. Each rectangle is first taken as the pair of its origin
/// and its far corner (origin plus size); if the second is empty the first
/// pair is kept, else if the first is empty the second, else the pair of the
/// coordinate-wise least origin and greatest far corner. The result has the
/// pair's first point as origin and the difference of the two points as
/// size. Sums and differences are the saturating ones of lengths.
#[verifier::external_body]
fn rect_union(a: (i32, i32, i32, i32), b: (i32, i32, i32, i32)) -> (r: (i32, i32, i32, i32))
    requires
        Rect::from_parts(a).in_range(),
        Rect::from_parts(b).in_range(),
    ensures
        Rect::from_parts(r) == Rect::from_parts(a).united(Rect::from_parts(b)),
{
    let first: euclid::default::Rect<app_units::Au> =
        euclid::rect(app_units::Au(a.0), app_units::Au(a.1), app_units::Au(a.2), app_units::Au(a.3));
    let second: euclid::default::Rect<app_units::Au> =
        euclid::rect(app_units::Au(b.0), app_units::Au(b.1), app_units::Au(b.2), app_units::Au(b.3));
    let both = first.union(&second);
    (both.origin.x.0, both.origin.y.0, both.size.width.0, both.size.height.0)
}

} // verus!
