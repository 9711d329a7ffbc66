use vstd::prelude::*;
use crate::faces::{
    face_meet, face_outside, face_within, faces_wf, is_max_meet, is_max_outside,
    lemma_face_meet_self, lemma_max_meet_swap, lemma_max_meet_unique, lemma_max_outside_unique,
    max_meet, max_outside, Bounds, Face, Span,
};
use crate::intersection_matrix::{rank, Dimensions, IntersectionMatrix};
use crate::rect::{Coord, Rect};

verus! {

/// A straight segment between two points.
#[derive(Clone, Copy, Debug, PartialEq, Eq, Structural)]
pub struct Line {
    pub start: Coord,
    pub end: Coord,
}

/// A geometry of the integer plane: a single point, an axis-aligned segment,
/// or the closed area of an axis-aligned rectangle.
#[derive(Clone, Copy, Debug, PartialEq, Eq, Structural)]
pub enum Geometry {
    Point(Coord),
    Line(Line),
    Rect(Rect),
}

/// The error for a geometry outside the related kinds: a segment of zero
/// length or off the axes, or a rectangle of zero width or zero height.
#[derive(Clone, Copy, Debug, PartialEq, Eq, Structural)]
pub struct InvalidGeometryError;

pub open spec fn lesser(a: i64, b: i64) -> i64 {
    if a < b { a } else { b }
}

pub open spec fn greater(a: i64, b: i64) -> i64 {
    if a < b { b } else { a }
}

/// The geometry is one that can be related: a segment has two distinct ends
/// on a horizontal or vertical line, a rectangle has positive area.
pub open spec fn well_formed(g: Geometry) -> bool {
    match g {
        Geometry::Point(_) => true,
        Geometry::Line(l) => l.start != l.end && (l.start.x == l.end.x || l.start.y == l.end.y),
        Geometry::Rect(r) => r.min_spec().x < r.max_spec().x && r.min_spec().y < r.max_spec().y,
    }
}

pub open spec fn vertex(p: Coord) -> Face {
    Face { x: Span::At(p.x), y: Span::At(p.y) }
}

/// The interior of a geometry as open faces: the point itself, the segment
/// without its ends, or the open area.
pub open spec fn interior_faces(g: Geometry) -> Seq<Face> {
    match g {
        Geometry::Point(p) => seq![vertex(p)],
        Geometry::Line(l) => if l.start.y == l.end.y {
            seq![
                Face {
                    x: Span::Open(lesser(l.start.x, l.end.x), greater(l.start.x, l.end.x)),
                    y: Span::At(l.start.y),
                },
            ]
        } else {
            seq![
                Face {
                    x: Span::At(l.start.x),
                    y: Span::Open(lesser(l.start.y, l.end.y), greater(l.start.y, l.end.y)),
                },
            ]
        },
        Geometry::Rect(r) => seq![
            Face {
                x: Span::Open(r.min_spec().x, r.max_spec().x),
                y: Span::Open(r.min_spec().y, r.max_spec().y),
            },
        ],
    }
}

/// The boundary of a geometry as open faces: nothing for a point, the two
/// ends of a segment, the four open sides and four corners of a rectangle.
pub open spec fn boundary_faces(g: Geometry) -> Seq<Face> {
    match g {
        Geometry::Point(_) => seq![],
        Geometry::Line(l) => seq![vertex(l.start), vertex(l.end)],
        Geometry::Rect(r) => {
            let (lo, hi) = (r.min_spec(), r.max_spec());
            seq![
                Face { x: Span::Open(lo.x, hi.x), y: Span::At(lo.y) },
                Face { x: Span::Open(lo.x, hi.x), y: Span::At(hi.y) },
                Face { x: Span::At(lo.x), y: Span::Open(lo.y, hi.y) },
                Face { x: Span::At(hi.x), y: Span::Open(lo.y, hi.y) },
                vertex(lo),
                vertex(Coord { x: lo.x, y: hi.y }),
                vertex(hi),
                vertex(Coord { x: hi.x, y: lo.y }),
            ]
        },
    }
}

/// The smallest closed box holding the geometry; it is the geometry's
/// closure.
pub open spec fn bounds_of(g: Geometry) -> Bounds {
    match g {
        Geometry::Point(p) => Bounds { x0: p.x, y0: p.y, x1: p.x, y1: p.y },
        Geometry::Line(l) => Bounds {
            x0: lesser(l.start.x, l.end.x),
            y0: lesser(l.start.y, l.end.y),
            x1: greater(l.start.x, l.end.x),
            y1: greater(l.start.y, l.end.y),
        },
        Geometry::Rect(r) => Bounds {
            x0: r.min_spec().x,
            y0: r.min_spec().y,
            x1: r.max_spec().x,
            y1: r.max_spec().y,
        },
    }
}

/// `m` is the DE-9IM matrix of `a` against `b`: each interior or boundary
/// cell holds the largest dimension in which a face of that part of `a`
/// meets a face of that part of `b`; an exterior cell holds the largest
/// dimension of a face of the other geometry's part that leaves this one's
/// closure; the two exteriors always share an area.
pub open spec fn relation_holds(a: Geometry, b: Geometry, m: IntersectionMatrix) -> bool {
    let (ia, ba, ib, bb) = (interior_faces(a), boundary_faces(a), interior_faces(b), boundary_faces(b));
    &&& is_max_meet(ia, ib, rank(m.ii))
    &&& is_max_meet(ia, bb, rank(m.ib))
    &&& is_max_outside(ia, bounds_of(b), rank(m.ie))
    &&& is_max_meet(ba, ib, rank(m.bi))
    &&& is_max_meet(ba, bb, rank(m.bb))
    &&& is_max_outside(ba, bounds_of(b), rank(m.be))
    &&& is_max_outside(ib, bounds_of(a), rank(m.ei))
    &&& is_max_outside(bb, bounds_of(a), rank(m.eb))
    &&& m.ee == Dimensions::TwoDimensional
}

fn lesser_of(a: i64, b: i64) -> (r: i64)
    ensures
        r == lesser(a, b),
{
    if a < b { a } else { b }
}

fn greater_of(a: i64, b: i64) -> (r: i64)
    ensures
        r == greater(a, b),
{
    if a < b { b } else { a }
}

fn vertex_at(p: Coord) -> (f: Face)
    ensures
        f == vertex(p),
{
    Face { x: Span::At(p.x), y: Span::At(p.y) }
}

fn dimension_of(r: i8) -> (d: Dimensions)
    requires
        -1 <= r <= 2,
    ensures
        rank(d) == r,
{
    if r < 0 {
        Dimensions::Empty
    } else if r == 0 {
        Dimensions::ZeroDimensional
    } else if r == 1 {
        Dimensions::OneDimensional
    } else {
        Dimensions::TwoDimensional
    }
}

impl Geometry {
    /// Whether the geometry can be related.
    pub fn is_well_formed(&self) -> (r: bool)
        ensures
            r == well_formed(*self),
    {
        match self {
            Geometry::Point(_) => true,
            Geometry::Line(l) => (l.start.x != l.end.x || l.start.y != l.end.y) && (l.start.x
                == l.end.x || l.start.y == l.end.y),
            Geometry::Rect(r) => {
                let (lo, hi) = (r.min(), r.max());
                lo.x < hi.x && lo.y < hi.y
            },
        }
    }

    /// The open faces of the interior.
    pub fn interior(&self) -> (r: Vec<Face>)
        ensures
            r@ == interior_faces(*self),
    {
        match self {
            Geometry::Point(p) => vec![vertex_at(*p)],
            Geometry::Line(l) => if l.start.y == l.end.y {
                vec![
                    Face {
                        x: Span::Open(lesser_of(l.start.x, l.end.x), greater_of(l.start.x, l.end.x)),
                        y: Span::At(l.start.y),
                    },
                ]
            } else {
                vec![
                    Face {
                        x: Span::At(l.start.x),
                        y: Span::Open(lesser_of(l.start.y, l.end.y), greater_of(l.start.y, l.end.y)),
                    },
                ]
            },
            Geometry::Rect(r) => {
                let (lo, hi) = (r.min(), r.max());
                vec![Face { x: Span::Open(lo.x, hi.x), y: Span::Open(lo.y, hi.y) }]
            },
        }
    }

    /// The open faces of the boundary.
    pub fn boundary(&self) -> (r: Vec<Face>)
        ensures
            r@ == boundary_faces(*self),
    {
        match self {
            Geometry::Point(_) => Vec::new(),
            Geometry::Line(l) => vec![vertex_at(l.start), vertex_at(l.end)],
            Geometry::Rect(r) => {
                let (lo, hi) = (r.min(), r.max());
                vec![
                    Face { x: Span::Open(lo.x, hi.x), y: Span::At(lo.y) },
                    Face { x: Span::Open(lo.x, hi.x), y: Span::At(hi.y) },
                    Face { x: Span::At(lo.x), y: Span::Open(lo.y, hi.y) },
                    Face { x: Span::At(hi.x), y: Span::Open(lo.y, hi.y) },
                    vertex_at(lo),
                    vertex_at(Coord { x: lo.x, y: hi.y }),
                    vertex_at(hi),
                    vertex_at(Coord { x: hi.x, y: lo.y }),
                ]
            },
        }
    }

    /// The closed box that the geometry fills out.
    pub fn bounds(&self) -> (r: Bounds)
        ensures
            r == bounds_of(*self),
    {
        match self {
            Geometry::Point(p) => Bounds { x0: p.x, y0: p.y, x1: p.x, y1: p.y },
            Geometry::Line(l) => Bounds {
                x0: lesser_of(l.start.x, l.end.x),
                y0: lesser_of(l.start.y, l.end.y),
                x1: greater_of(l.start.x, l.end.x),
                y1: greater_of(l.start.y, l.end.y),
            },
            Geometry::Rect(r) => {
                let (lo, hi) = (r.min(), r.max());
                Bounds { x0: lo.x, y0: lo.y, x1: hi.x, y1: hi.y }
            },
        }
    }
}

/// Every face of a well-formed geometry lies in its bounding box.
pub proof fn lemma_faces_in_bounds(g: Geometry)
    requires
        well_formed(g),
    ensures
        forall|i: int|
            0 <= i < interior_faces(g).len() ==> #[trigger] face_within(
                interior_faces(g)[i],
                bounds_of(g),
            ),
        forall|i: int|
            0 <= i < boundary_faces(g).len() ==> #[trigger] face_within(
                boundary_faces(g)[i],
                bounds_of(g),
            ),
        faces_wf(interior_faces(g)),
        interior_faces(g).len() == 1,
{
    if let Geometry::Rect(r) = g {
        assert(r.min_spec().x < r.max_spec().x);
    }
}

/// Relating B to A gives the transpose of relating A to B.
pub proof fn lemma_relate_symmetric(a: Geometry, b: Geometry, m: IntersectionMatrix)
    requires
        a.related_by(&b, m),
    ensures
        b.related_by(&a, m.transposed()),
{
    lemma_max_meet_swap(interior_faces(a), interior_faces(b), rank(m.ii));
    lemma_max_meet_swap(interior_faces(a), boundary_faces(b), rank(m.ib));
    lemma_max_meet_swap(boundary_faces(a), interior_faces(b), rank(m.bi));
    lemma_max_meet_swap(boundary_faces(a), boundary_faces(b), rank(m.bb));
}

/// A well-formed geometry is topologically equal to itself.
pub proof fn lemma_relate_reflexive(a: Geometry, m: IntersectionMatrix)
    requires
        well_formed(a),
        a.related_by(&a, m),
    ensures
        m.equals_spec(),
{
    let (ia, ba, bx) = (interior_faces(a), boundary_faces(a), bounds_of(a));
    lemma_faces_in_bounds(a);
    lemma_face_meet_self(ia[0]);
    assert(face_meet(ia[0], ia[0]) <= rank(m.ii));
    assert forall|i: int| 0 <= i < ia.len() implies #[trigger] face_outside(ia[i], bx) == -1 by {
        assert(face_within(ia[i], bx));
    }
    assert forall|i: int| 0 <= i < ba.len() implies #[trigger] face_outside(ba[i], bx) == -1 by {
        assert(face_within(ba[i], bx));
    }
}

/// The matrix of two geometries is determined by them: relating the same
/// pair twice gives the same matrix.
pub proof fn lemma_relate_deterministic(
    a: Geometry,
    b: Geometry,
    m1: IntersectionMatrix,
    m2: IntersectionMatrix,
)
    requires
        a.related_by(&b, m1),
        a.related_by(&b, m2),
    ensures
        m1 == m2,
{
    let (ia, ba, ib, bb) = (interior_faces(a), boundary_faces(a), interior_faces(b), boundary_faces(b));
    lemma_max_meet_unique(ia, ib, rank(m1.ii), rank(m2.ii));
    lemma_max_meet_unique(ia, bb, rank(m1.ib), rank(m2.ib));
    lemma_max_meet_unique(ba, ib, rank(m1.bi), rank(m2.bi));
    lemma_max_meet_unique(ba, bb, rank(m1.bb), rank(m2.bb));
    lemma_max_outside_unique(ia, bounds_of(b), rank(m1.ie), rank(m2.ie));
    lemma_max_outside_unique(ba, bounds_of(b), rank(m1.be), rank(m2.be));
    lemma_max_outside_unique(ib, bounds_of(a), rank(m1.ei), rank(m2.ei));
    lemma_max_outside_unique(bb, bounds_of(a), rank(m1.eb), rank(m2.eb));
}

/// Swapping the geometries swaps contains with within and covers with
/// covered-by, and keeps disjoint, touches, crosses, overlaps and equals.
pub proof fn lemma_relate_converse_predicates(
    a: Geometry,
    b: Geometry,
    m_ab: IntersectionMatrix,
    m_ba: IntersectionMatrix,
)
    requires
        a.related_by(&b, m_ab),
        b.related_by(&a, m_ba),
    ensures
        m_ab.contains_spec() == m_ba.within_spec(),
        m_ab.covers_spec() == m_ba.coveredby_spec(),
        m_ab.disjoint_spec() == m_ba.disjoint_spec(),
        m_ab.touches_spec() == m_ba.touches_spec(),
        m_ab.crosses_spec() == m_ba.crosses_spec(),
        m_ab.overlaps_spec() == m_ba.overlaps_spec(),
        m_ab.equals_spec() == m_ba.equals_spec(),
{
    lemma_relate_symmetric(a, b, m_ab);
    lemma_relate_deterministic(b, a, m_ba, m_ab.transposed());
}

/// Computing the DE-9IM relation of one geometry to another.
pub trait Relate<T> {
    /// Both inputs are of a kind that can be related.
    spec fn relatable(&self, other: &T) -> bool;

    /// `m` is the matrix of `self` against `other`.
    spec fn related_by(&self, other: &T, m: IntersectionMatrix) -> bool;

    /// The DE-9IM matrix of `self` (rows) against `other` (columns); fails
    /// exactly where an input cannot be related.
    fn relate(&self, other: &T) -> (r: Result<IntersectionMatrix, InvalidGeometryError>)
        ensures
            r is Ok <==> self.relatable(other),
            r is Ok ==> self.related_by(other, r->Ok_0),
    ;
}

impl Relate<Geometry> for Geometry {
    open spec fn relatable(&self, other: &Geometry) -> bool {
        well_formed(*self) && well_formed(*other)
    }

    open spec fn related_by(&self, other: &Geometry, m: IntersectionMatrix) -> bool {
        relation_holds(*self, *other, m)
    }

    fn relate(&self, other: &Geometry) -> (r: Result<IntersectionMatrix, InvalidGeometryError>) {
        if !self.is_well_formed() || !other.is_well_formed() {
            return Err(InvalidGeometryError);
        }
        let (ia, ba, bounds_a) = (self.interior(), self.boundary(), self.bounds());
        let (ib, bb, bounds_b) = (other.interior(), other.boundary(), other.bounds());
        let mut m = IntersectionMatrix::empty();
        m.ii = dimension_of(max_meet(&ia, &ib));
        m.ib = dimension_of(max_meet(&ia, &bb));
        m.ie = dimension_of(max_outside(&ia, bounds_b));
        m.bi = dimension_of(max_meet(&ba, &ib));
        m.bb = dimension_of(max_meet(&ba, &bb));
        m.be = dimension_of(max_outside(&ba, bounds_b));
        m.ei = dimension_of(max_outside(&ib, bounds_a));
        m.eb = dimension_of(max_outside(&bb, bounds_a));
        m.ee = Dimensions::TwoDimensional;
        Ok(m)
    }
}

} // verus!
