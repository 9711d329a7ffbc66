use vstd::prelude::*;

verus! {

/// A point of the integer plane.
#[derive(Clone, Copy, Debug, PartialEq, Eq, Structural)]
pub struct Coord {
    pub x: i64,
    pub y: i64,
}

impl From<(i64, i64)> for Coord {
    fn from(t: (i64, i64)) -> (r: Coord) {
        Coord { x: t.0, y: t.1 }
    }
}

impl vstd::std_specs::convert::FromSpecImpl<(i64, i64)> for Coord {
    open spec fn obeys_from_spec() -> bool {
        true
    }

    open spec fn from_spec(t: (i64, i64)) -> Coord {
        Coord { x: t.0, y: t.1 }
    }
}

/// The error for a rectangle whose minimum corner lies above or right of its
/// maximum corner.
#[derive(Clone, Copy, Debug, PartialEq, Eq, Structural)]
pub struct InvalidRectCoordinatesError;

impl InvalidRectCoordinatesError {
    /// A description of the violated bound.
    pub fn message(&self) -> (r: &'static str) {
        "Failed to create Rect: 'min' coordinate's x/y value must be smaller or equal to the 'max' x/y value"
    }
}

/// An axis-aligned rectangle given by its bottom-left (`min`) and top-right
/// (`max`) corners. The minimum never exceeds the maximum on either axis, so
/// width and height are never negative.
#[derive(Clone, Copy, Debug, PartialEq, Eq, Structural)]
pub struct Rect {
    min: Coord,
    max: Coord,
}

/// The smaller of two integers.
pub open spec fn min_of(a: int, b: int) -> int {
    if a < b { a } else { b }
}

/// The larger of two integers.
pub open spec fn max_of(a: int, b: int) -> int {
    if a < b { b } else { a }
}

/// Floor of the midpoint of two integers.
pub open spec fn mid_floor(a: int, b: int) -> int {
    (a + b) / 2
}

/// A polygon: an exterior ring and interior rings, each closed (its last
/// point repeats its first).
#[derive(Clone, Debug, PartialEq, Eq)]
pub struct Polygon {
    pub exterior: Vec<Coord>,
    pub interiors: Vec<Vec<Coord>>,
}

impl Rect {
    /// Bounds are ordered on both axes.
    pub open spec fn valid_bounds(self) -> bool {
        self.min_spec().x <= self.max_spec().x && self.min_spec().y <= self.max_spec().y
    }

    pub closed spec fn min_spec(self) -> Coord {
        self.min
    }

    pub closed spec fn max_spec(self) -> Coord {
        self.max
    }

    /// The rectangle spanned by two corners, in either order.
    pub open spec fn spanned(c1: Coord, c2: Coord) -> (Coord, Coord) {
        (
            Coord { x: min_of(c1.x as int, c2.x as int) as i64, y: min_of(c1.y as int, c2.y as int) as i64 },
            Coord { x: max_of(c1.x as int, c2.x as int) as i64, y: max_of(c1.y as int, c2.y as int) as i64 },
        )
    }

    #[verifier::type_invariant]
    spec fn inv(self) -> bool {
        self.valid_bounds()
    }

    /// The rectangle with corners `c1` and `c2`, whichever order they come in.
    pub fn new(c1: Coord, c2: Coord) -> (r: Rect)
        ensures
            (r.min_spec(), r.max_spec()) == Rect::spanned(c1, c2),
    {
        let (min_x, max_x) = if c1.x < c2.x {
            (c1.x, c2.x)
        } else {
            (c2.x, c1.x)
        };
        let (min_y, max_y) = if c1.y < c2.y {
            (c1.y, c2.y)
        } else {
            (c2.y, c1.y)
        };
        Rect { min: Coord { x: min_x, y: min_y }, max: Coord { x: max_x, y: max_y } }
    }

    /// As `new`; never fails.
    pub fn try_new(c1: Coord, c2: Coord) -> (r: Result<Rect, InvalidRectCoordinatesError>)
        ensures
            r is Ok,
            (r->Ok_0.min_spec(), r->Ok_0.max_spec()) == Rect::spanned(c1, c2),
    {
        Ok(Rect::new(c1, c2))
    }

    /// The bottom-left corner.
    pub fn min(self) -> (r: Coord)
        ensures
            r == self.min_spec(),
    {
        self.min
    }

    /// The top-right corner.
    pub fn max(self) -> (r: Coord)
        ensures
            r == self.max_spec(),
    {
        self.max
    }

    /// Moves the bottom-left corner to `min`; refuses, leaving the rectangle
    /// unchanged, when `min` lies right of or above the top-right corner.
    pub fn set_min(&mut self, min: Coord) -> (r: Result<(), InvalidRectCoordinatesError>)
        ensures
            r is Ok <==> (min.x <= old(self).max_spec().x && min.y <= old(self).max_spec().y),
            r is Ok ==> final(self).min_spec() == min && final(self).max_spec() == old(self).max_spec(),
            r is Err ==> *final(self) == *old(self),
    {
        if min.x <= self.max.x && min.y <= self.max.y {
            *self = Rect { min, max: self.max };
            Ok(())
        } else {
            Err(InvalidRectCoordinatesError)
        }
    }

    /// Moves the top-right corner to `max`; refuses, leaving the rectangle
    /// unchanged, when `max` lies left of or below the bottom-left corner.
    pub fn set_max(&mut self, max: Coord) -> (r: Result<(), InvalidRectCoordinatesError>)
        ensures
            r is Ok <==> (old(self).min_spec().x <= max.x && old(self).min_spec().y <= max.y),
            r is Ok ==> final(self).max_spec() == max && final(self).min_spec() == old(self).min_spec(),
            r is Err ==> *final(self) == *old(self),
    {
        if self.min.x <= max.x && self.min.y <= max.y {
            *self = Rect { min: self.min, max };
            Ok(())
        } else {
            Err(InvalidRectCoordinatesError)
        }
    }

    /// Extent along the x axis.
    pub fn width(self) -> (r: u64)
        ensures
            r == self.max_spec().x - self.min_spec().x,
    {
        proof { use_type_invariant(self); }
        (self.max.x as i128 - self.min.x as i128) as u64
    }

    /// Extent along the y axis.
    pub fn height(self) -> (r: u64)
        ensures
            r == self.max_spec().y - self.min_spec().y,
    {
        proof { use_type_invariant(self); }
        (self.max.y as i128 - self.min.y as i128) as u64
    }

    /// The midpoint, rounded down on each axis.
    pub fn center(self) -> (r: Coord)
        ensures
            r.x == mid_floor(self.min_spec().x as int, self.max_spec().x as int),
            r.y == mid_floor(self.min_spec().y as int, self.max_spec().y as int),
    {
        proof { use_type_invariant(self); }
        let sx: i128 = self.max.x as i128 + self.min.x as i128;
        let sy: i128 = self.max.y as i128 + self.min.y as i128;
        let cx: i128 = if sx >= 0 { sx / 2 } else { -((-sx + 1) / 2) };
        let cy: i128 = if sy >= 0 { sy / 2 } else { -((-sy + 1) / 2) };
        Coord { x: cx as i64, y: cy as i64 }
    }

    /// The polygon with this rectangle's outline, starting at the bottom-left
    /// corner and going up the left side, with no interior rings.
    pub fn to_polygon(self) -> (r: Polygon)
        ensures
            r.exterior@ == seq![
                self.min_spec(),
                Coord { x: self.min_spec().x, y: self.max_spec().y },
                self.max_spec(),
                Coord { x: self.max_spec().x, y: self.min_spec().y },
                self.min_spec(),
            ],
            r.interiors@.len() == 0,
    {
        let exterior = vec![
            self.min,
            Coord { x: self.min.x, y: self.max.y },
            self.max,
            Coord { x: self.max.x, y: self.min.y },
            self.min,
        ];
        Polygon { exterior, interiors: Vec::new() }
    }
}

} // verus!
