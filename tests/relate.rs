use geo_relate::intersection_matrix::{Dimensions, IntersectionMatrix, Location};
use geo_relate::rect::{Coord, Rect};
use geo_relate::relate::{Geometry, Line, Relate};

fn square(x0: i64, y0: i64, x1: i64, y1: i64) -> Geometry {
    Geometry::Rect(Rect::new(Coord { x: x0, y: y0 }, Coord { x: x1, y: y1 }))
}

fn point(x: i64, y: i64) -> Geometry {
    Geometry::Point(Coord { x, y })
}

fn line(x0: i64, y0: i64, x1: i64, y1: i64) -> Geometry {
    Geometry::Line(Line { start: Coord { x: x0, y: y0 }, end: Coord { x: x1, y: y1 } })
}

fn relate(a: &Geometry, b: &Geometry) -> IntersectionMatrix {
    a.relate(b).unwrap()
}

#[test]
fn relate_disjoint_squares() {
    let m = relate(&square(0, 0, 1, 1), &square(2, 2, 3, 3));
    assert!(m.is_disjoint());
    assert!(!m.is_intersects());
    assert_eq!(m.matches("FF2FF1212"), Ok(true));
}

#[test]
fn relate_square_contains_point() {
    // a unit square with its centre, at twice the scale
    let a = square(0, 0, 2, 2);
    let b = point(1, 1);
    let ab = relate(&a, &b);
    let ba = relate(&b, &a);
    assert!(ab.is_contains());
    assert!(ba.is_within());
    assert_eq!(ab.get(Location::Interior, Location::Interior), Dimensions::ZeroDimensional);
    assert_eq!(ab.matches("0F2FF1FF2"), Ok(true));
}

#[test]
fn relate_squares_sharing_an_edge() {
    let m = relate(&square(0, 0, 1, 1), &square(1, 0, 2, 1));
    assert!(m.is_touches());
    assert!(!m.is_overlaps());
    assert!(m.is_intersects());
    assert_eq!(m.get(Location::Boundary, Location::Boundary), Dimensions::OneDimensional);
}

#[test]
fn relate_squares_sharing_a_corner() {
    let m = relate(&square(0, 0, 1, 1), &square(1, 1, 2, 2));
    assert!(m.is_touches());
    assert_eq!(m.matches("FF2F01212"), Ok(true));
}

#[test]
fn relate_offset_squares_overlap() {
    // unit squares offset by half a unit, at twice the scale
    let m = relate(&square(0, 0, 2, 2), &square(1, 1, 3, 3));
    assert!(m.is_overlaps());
    assert!(!m.is_contains());
    assert!(!m.is_within());
    assert_eq!(m.matches("212101212"), Ok(true));
    assert_eq!(m.to_pattern(), "212101212");
}

#[test]
fn relate_nested_squares() {
    let outer = square(0, 0, 10, 10);
    let inner = square(2, 2, 5, 5);
    let m = relate(&outer, &inner);
    assert_eq!(m.matches("212FF1FF2"), Ok(true));
    assert!(m.is_contains() && m.is_covers());
    assert!(!m.is_crosses());
    let flush = square(0, 0, 5, 5);
    let f = relate(&flush, &outer);
    assert!(f.is_within() && f.is_coveredby());
    assert_eq!(f.matches("2FF11F212"), Ok(true));
}

#[test]
fn relate_points() {
    let same = relate(&point(3, 4), &point(3, 4));
    assert!(same.is_equal_topo());
    assert!(!same.is_touches());
    assert_eq!(same.matches("0FFFFFFF2"), Ok(true));
    let apart = relate(&point(3, 4), &point(4, 3));
    assert!(apart.is_disjoint());
    assert_eq!(apart.matches("FF0FFF0F2"), Ok(true));
}

#[test]
fn relate_point_on_boundary() {
    let m = relate(&point(0, 1), &square(0, 0, 2, 2));
    assert!(m.is_touches());
    assert_eq!(m.matches("F0FFFF212"), Ok(true));
    let out = relate(&point(5, 1), &square(0, 0, 2, 2));
    assert_eq!(out.matches("FF0FFF212"), Ok(true));
}

#[test]
fn relate_is_symmetric() {
    let shapes = [
        square(0, 0, 2, 2),
        square(1, 1, 3, 3),
        square(2, 0, 4, 2),
        square(-5, -5, 5, 5),
        point(1, 1),
        point(2, 2),
        point(9, 9),
        line(0, -1, 0, 1),
        line(-1, 0, 3, 0),
        line(2, 2, 2, 0),
        line(1, 1, 5, 1),
    ];
    for a in shapes.iter() {
        for b in shapes.iter() {
            assert_eq!(relate(a, b), relate(b, a).transpose());
        }
    }
}

#[test]
fn relate_is_reflexive() {
    for a in [square(0, 0, 2, 2), square(-7, 3, 1, 4), point(1, -1), line(4, 2, -3, 2)].iter() {
        assert!(relate(a, a).is_equal_topo());
    }
}

#[test]
fn relate_is_repeatable() {
    let a = square(0, 0, 2, 2);
    let b = square(1, 1, 3, 3);
    assert_eq!(a.relate(&b), a.relate(&b));
}

#[test]
fn relate_rejects_degenerate_rect() {
    let flat = square(0, 0, 5, 0);
    assert!(!flat.is_well_formed());
    assert!(flat.relate(&point(1, 0)).is_err());
    assert!(point(1, 0).relate(&flat).is_err());
}

#[test]
fn relate_line_through_square_within() {
    // the segment ends on the square's outline, so it never leaves the square
    let l = line(0, -1, 0, 1);
    let sq = square(-1, -1, 1, 1);
    let m = relate(&l, &sq);
    assert_eq!(m.matches("1FFF0F212"), Ok(true));
    assert!(m.is_within());
    assert!(!m.is_crosses());
    assert!(relate(&sq, &l).is_contains());
}

#[test]
fn relate_line_crosses_square() {
    let l = line(0, -2, 0, 2);
    let sq = square(-1, -1, 1, 1);
    let m = relate(&l, &sq);
    assert!(m.is_crosses());
    assert!(relate(&sq, &l).is_crosses());
    assert_eq!(m.matches("101FF0212"), Ok(true));
}

#[test]
fn relate_crossing_lines() {
    let m = relate(&line(0, -1, 0, 1), &line(-1, 0, 1, 0));
    assert_eq!(m.matches("0F1FF0102"), Ok(true));
    assert!(m.is_crosses());
    assert!(!m.is_touches());
}

#[test]
fn relate_collinear_lines_overlap() {
    let m = relate(&line(0, 0, 2, 0), &line(3, 0, 1, 0));
    assert_eq!(m.matches("1010F0102"), Ok(true));
    assert!(m.is_overlaps());
    assert!(!m.is_crosses());
}

#[test]
fn relate_lines_meeting_at_ends() {
    let m = relate(&line(0, 0, 2, 0), &line(2, 0, 2, 5));
    assert!(m.is_touches());
    assert_eq!(m.get(Location::Boundary, Location::Boundary), Dimensions::ZeroDimensional);
}

#[test]
fn relate_line_along_square_side() {
    let m = relate(&line(0, 0, 2, 0), &square(0, 0, 2, 2));
    assert_eq!(m.matches("F1FF0F212"), Ok(true));
    assert!(m.is_touches());
    assert!(m.is_coveredby());
    assert!(!m.is_within());
}

#[test]
fn relate_point_on_line() {
    let l = line(0, 0, 0, 4);
    assert!(relate(&point(0, 2), &l).is_within());
    let end = relate(&point(0, 4), &l);
    assert!(end.is_touches());
    assert_eq!(end.matches("F0FFFF102"), Ok(true));
}

#[test]
fn relate_rejects_bad_lines() {
    assert!(line(0, 0, 1, 1).relate(&point(0, 0)).is_err());
    assert!(point(0, 0).relate(&line(3, 3, 3, 3)).is_err());
    assert!(line(0, 0, 0, 1).is_well_formed());
}

#[test]
fn relate_predicates_agree_with_patterns() {
    let shapes = [
        square(0, 0, 2, 2),
        square(1, 1, 3, 3),
        square(0, 0, 1, 1),
        point(1, 1),
        point(0, 0),
        line(0, 0, 2, 0),
        line(1, -1, 1, 4),
    ];
    for a in shapes.iter() {
        for b in shapes.iter() {
            let m = relate(a, b);
            assert_eq!(m.is_disjoint(), m.matches("FF*FF****").unwrap());
            assert_eq!(m.is_within(), m.matches("T*F**F***").unwrap());
            assert_eq!(m.is_contains(), m.matches("T*****FF*").unwrap());
            assert_eq!(m.is_equal_topo(), m.matches("T*F**FFF*").unwrap());
            let covers = ["T*****FF*", "*T****FF*", "***T**FF*", "****T*FF*"]
                .iter()
                .any(|p| m.matches(p).unwrap());
            assert_eq!(m.is_covers(), covers);
            let covered = ["T*F**F***", "*TF**F***", "**FT*F***", "**F*TF***"]
                .iter()
                .any(|p| m.matches(p).unwrap());
            assert_eq!(m.is_coveredby(), covered);
            assert_eq!(m.matches(&m.to_pattern()), Ok(true));
        }
    }
}
