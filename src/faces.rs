use vstd::prelude::*;

verus! {

/// One axis of an open face: an open interval `(lo, hi)` with `lo < hi`, or a
/// single value.
#[derive(Clone, Copy, Debug, PartialEq, Eq, Structural)]
pub enum Span {
    Open(i64, i64),
    At(i64),
}

/// A relatively open cell of the plane: the product of one span per axis. A
/// vertex is `At × At`, an open edge has one open span, an open area two.
#[derive(Clone, Copy, Debug, PartialEq, Eq, Structural)]
pub struct Face {
    pub x: Span,
    pub y: Span,
}

/// A closed axis-aligned box, `[x0, x1] × [y0, y1]`.
#[derive(Clone, Copy, Debug, PartialEq, Eq, Structural)]
pub struct Bounds {
    pub x0: i64,
    pub y0: i64,
    pub x1: i64,
    pub y1: i64,
}

pub open spec fn span_wf(s: Span) -> bool {
    match s {
        Span::Open(lo, hi) => lo < hi,
        Span::At(_) => true,
    }
}

pub open spec fn face_wf(f: Face) -> bool {
    span_wf(f.x) && span_wf(f.y)
}

pub open spec fn faces_wf(fs: Seq<Face>) -> bool {
    forall|i: int| 0 <= i < fs.len() ==> face_wf(#[trigger] fs[i])
}

/// The dimension of a span: 1 for an interval, 0 for a value.
pub open spec fn span_dim(s: Span) -> int {
    match s {
        Span::Open(_, _) => 1,
        Span::At(_) => 0,
    }
}

/// The dimension of a face.
pub open spec fn face_dim(f: Face) -> int {
    span_dim(f.x) + span_dim(f.y)
}

/// The dimension of the common part of two spans, -1 where they are apart.
pub open spec fn span_meet(s: Span, t: Span) -> int {
    match (s, t) {
        (Span::Open(a, b), Span::Open(c, d)) => if a < d && c < b { 1 } else { -1 },
        (Span::Open(a, b), Span::At(v)) => if a < v && v < b { 0 } else { -1 },
        (Span::At(v), Span::Open(c, d)) => if c < v && v < d { 0 } else { -1 },
        (Span::At(v), Span::At(w)) => if v == w { 0 } else { -1 },
    }
}

/// The dimension of the common part of two faces, -1 where they are apart.
pub open spec fn face_meet(f: Face, g: Face) -> int {
    let (mx, my) = (span_meet(f.x, g.x), span_meet(f.y, g.y));
    if mx < 0 || my < 0 {
        -1
    } else {
        mx + my
    }
}

/// The closure of span `s` lies in `[lo, hi]`.
pub open spec fn span_within(s: Span, lo: int, hi: int) -> bool {
    match s {
        Span::Open(a, b) => lo <= a && b <= hi,
        Span::At(v) => lo <= v && v <= hi,
    }
}

/// Face `f` lies in the closed box `b`.
pub open spec fn face_within(f: Face, b: Bounds) -> bool {
    span_within(f.x, b.x0 as int, b.x1 as int) && span_within(f.y, b.y0 as int, b.y1 as int)
}

/// The dimension of what face `f` has outside the closed box `b`: all of
/// it, or nothing.
pub open spec fn face_outside(f: Face, b: Bounds) -> int {
    if face_within(f, b) {
        -1
    } else {
        face_dim(f)
    }
}

/// `r` is the largest dimension in which a face of `ps` meets a face of
/// `qs`, or -1 where none meets.
pub open spec fn is_max_meet(ps: Seq<Face>, qs: Seq<Face>, r: int) -> bool {
    (forall|i: int, j: int|
        0 <= i < ps.len() && 0 <= j < qs.len() ==> #[trigger] face_meet(ps[i], qs[j]) <= r) && (r
        == -1 || exists|i: int, j: int|
        0 <= i < ps.len() && 0 <= j < qs.len() && #[trigger] face_meet(ps[i], qs[j]) == r)
}

/// `r` is the largest dimension of what a face of `ps` has outside the box
/// `b`, or -1 where all of them lie in it.
pub open spec fn is_max_outside(ps: Seq<Face>, b: Bounds, r: int) -> bool {
    (forall|i: int| 0 <= i < ps.len() ==> #[trigger] face_outside(ps[i], b) <= r) && (r == -1
        || exists|i: int| 0 <= i < ps.len() && #[trigger] face_outside(ps[i], b) == r)
}

/// Two faces meet in the same dimension whichever is named first.
pub proof fn lemma_face_meet_commutes(f: Face, g: Face)
    ensures
        face_meet(f, g) == face_meet(g, f),
{
}

/// A well-formed face meets itself in its own dimension.
pub proof fn lemma_face_meet_self(f: Face)
    requires
        face_wf(f),
    ensures
        face_meet(f, f) == face_dim(f),
        0 <= face_dim(f),
{
}

/// The largest meeting dimension does not depend on the order of the two
/// face lists.
pub proof fn lemma_max_meet_swap(ps: Seq<Face>, qs: Seq<Face>, r: int)
    requires
        is_max_meet(ps, qs, r),
    ensures
        is_max_meet(qs, ps, r),
{
    assert forall|j: int, i: int| 0 <= j < qs.len() && 0 <= i < ps.len() implies #[trigger] face_meet(
        qs[j],
        ps[i],
    ) <= r by {
        lemma_face_meet_commutes(qs[j], ps[i]);
        assert(face_meet(ps[i], qs[j]) <= r);
    }
    if r != -1 {
        let (i, j) = choose|i: int, j: int|
            0 <= i < ps.len() && 0 <= j < qs.len() && #[trigger] face_meet(ps[i], qs[j]) == r;
        lemma_face_meet_commutes(qs[j], ps[i]);
        assert(face_meet(qs[j], ps[i]) == r);
    }
}

/// At most one value is the largest meeting dimension.
pub proof fn lemma_max_meet_unique(ps: Seq<Face>, qs: Seq<Face>, r1: int, r2: int)
    requires
        is_max_meet(ps, qs, r1),
        is_max_meet(ps, qs, r2),
        -1 <= r1,
        -1 <= r2,
    ensures
        r1 == r2,
{
}

/// At most one value is the largest dimension outside a box.
pub proof fn lemma_max_outside_unique(ps: Seq<Face>, b: Bounds, r1: int, r2: int)
    requires
        is_max_outside(ps, b, r1),
        is_max_outside(ps, b, r2),
        -1 <= r1,
        -1 <= r2,
    ensures
        r1 == r2,
{
}

fn meet_of_spans(s: Span, t: Span) -> (r: i8)
    ensures
        r == span_meet(s, t),
{
    match (s, t) {
        (Span::Open(a, b), Span::Open(c, d)) => if a < d && c < b { 1 } else { -1 },
        (Span::Open(a, b), Span::At(v)) => if a < v && v < b { 0 } else { -1 },
        (Span::At(v), Span::Open(c, d)) => if c < v && v < d { 0 } else { -1 },
        (Span::At(v), Span::At(w)) => if v == w { 0 } else { -1 },
    }
}

fn meet_of_faces(f: Face, g: Face) -> (r: i8)
    ensures
        r == face_meet(f, g),
{
    let mx = meet_of_spans(f.x, g.x);
    let my = meet_of_spans(f.y, g.y);
    if mx < 0 || my < 0 {
        -1
    } else {
        mx + my
    }
}

fn span_lies_within(s: Span, lo: i64, hi: i64) -> (r: bool)
    ensures
        r == span_within(s, lo as int, hi as int),
{
    match s {
        Span::Open(a, b) => lo <= a && b <= hi,
        Span::At(v) => lo <= v && v <= hi,
    }
}

fn outside_of(f: Face, b: Bounds) -> (r: i8)
    ensures
        r == face_outside(f, b),
{
    if span_lies_within(f.x, b.x0, b.x1) && span_lies_within(f.y, b.y0, b.y1) {
        -1
    } else {
        let dx: i8 = if matches!(f.x, Span::Open(_, _)) { 1 } else { 0 };
        let dy: i8 = if matches!(f.y, Span::Open(_, _)) { 1 } else { 0 };
        dx + dy
    }
}

/// The largest dimension in which a face of `ps` meets a face of `qs`.
pub fn max_meet(ps: &Vec<Face>, qs: &Vec<Face>) -> (r: i8)
    ensures
        -1 <= r <= 2,
        is_max_meet(ps@, qs@, r as int),
{
    let mut best: i8 = -1;
    let mut i: usize = 0;
    while i < ps.len()
        invariant
            0 <= i <= ps.len(),
            -1 <= best <= 2,
            forall|i2: int, j: int|
                0 <= i2 < i && 0 <= j < qs@.len() ==> #[trigger] face_meet(ps@[i2], qs@[j])
                    <= best,
            best == -1 || exists|i2: int, j: int|
                0 <= i2 < i && 0 <= j < qs@.len() && #[trigger] face_meet(ps@[i2], qs@[j])
                    == best,
        decreases ps.len() - i,
    {
        let mut j: usize = 0;
        while j < qs.len()
            invariant
                0 <= i < ps.len(),
                0 <= j <= qs.len(),
                -1 <= best <= 2,
                forall|i2: int, j2: int|
                    (0 <= i2 < i && 0 <= j2 < qs@.len()) || (i2 == i && 0 <= j2 < j)
                        ==> #[trigger] face_meet(ps@[i2], qs@[j2]) <= best,
                best == -1 || exists|i2: int, j2: int|
                    ((0 <= i2 < i && 0 <= j2 < qs@.len()) || (i2 == i && 0 <= j2 < j))
                        && #[trigger] face_meet(ps@[i2], qs@[j2]) == best,
            decreases qs.len() - j,
        {
            let m = meet_of_faces(ps[i], qs[j]);
            if best < m {
                best = m;
                assert(face_meet(ps@[i as int], qs@[j as int]) == best);
            }
            j += 1;
        }
        i += 1;
    }
    best
}

/// The largest dimension of what a face of `ps` has outside the box `b`.
pub fn max_outside(ps: &Vec<Face>, b: Bounds) -> (r: i8)
    ensures
        -1 <= r <= 2,
        is_max_outside(ps@, b, r as int),
{
    let mut best: i8 = -1;
    let mut i: usize = 0;
    while i < ps.len()
        invariant
            0 <= i <= ps.len(),
            -1 <= best <= 2,
            forall|i2: int| 0 <= i2 < i ==> #[trigger] face_outside(ps@[i2], b) <= best,
            best == -1 || exists|i2: int| 0 <= i2 < i && #[trigger] face_outside(ps@[i2], b) == best,
        decreases ps.len() - i,
    {
        let m = outside_of(ps[i], b);
        if best < m {
            best = m;
            assert(face_outside(ps@[i as int], b) == best);
        }
        i += 1;
    }
    best
}

} // verus!
