use geo_relate::intersection_matrix::{
    Dimensions, IntersectionMatrix, InvalidPatternError, Label, Location, TopologyPosition,
};

#[test]
fn matrix_starts_empty() {
    let m = IntersectionMatrix::empty();
    assert_eq!(m.matches("FFFFFFFFF"), Ok(true));
    assert_eq!(m.get(Location::Exterior, Location::Exterior), Dimensions::Empty);
}

#[test]
fn matrix_set_overwrites() {
    let mut m = IntersectionMatrix::empty();
    m.set(Location::Boundary, Location::Exterior, Dimensions::TwoDimensional);
    m.set(Location::Boundary, Location::Exterior, Dimensions::ZeroDimensional);
    assert_eq!(m.get(Location::Boundary, Location::Exterior), Dimensions::ZeroDimensional);
    assert_eq!(m.matches("FFFFF0FFF"), Ok(true));
}

#[test]
fn matrix_set_at_least_never_lowers() {
    let mut m = IntersectionMatrix::empty();
    m.set_at_least(Location::Interior, Location::Boundary, Dimensions::OneDimensional);
    assert_eq!(m.get(Location::Interior, Location::Boundary), Dimensions::OneDimensional);
    m.set_at_least(Location::Interior, Location::Boundary, Dimensions::OneDimensional);
    m.set_at_least(Location::Interior, Location::Boundary, Dimensions::ZeroDimensional);
    assert_eq!(m.get(Location::Interior, Location::Boundary), Dimensions::OneDimensional);
    m.set_at_least(Location::Interior, Location::Boundary, Dimensions::TwoDimensional);
    assert_eq!(m.get(Location::Interior, Location::Boundary), Dimensions::TwoDimensional);
    assert_eq!(m.matches("F2FFFFFFF"), Ok(true));
}

#[test]
fn matrix_transpose() {
    let mut m = IntersectionMatrix::empty();
    m.set(Location::Interior, Location::Exterior, Dimensions::OneDimensional);
    let t = m.transpose();
    assert_eq!(t.get(Location::Exterior, Location::Interior), Dimensions::OneDimensional);
    assert_eq!(t.get(Location::Interior, Location::Exterior), Dimensions::Empty);
    assert_eq!(t.transpose(), m);
}

#[test]
fn matrix_pattern_codes() {
    let mut m = IntersectionMatrix::empty();
    m.set(Location::Interior, Location::Interior, Dimensions::TwoDimensional);
    m.set(Location::Exterior, Location::Exterior, Dimensions::ZeroDimensional);
    assert_eq!(m.matches("2FFFFFFF0"), Ok(true));
    assert_eq!(m.matches("T*******T"), Ok(true));
    assert_eq!(m.matches("1********"), Ok(false));
    assert_eq!(m.matches("*T*******"), Ok(false));
}

#[test]
fn matrix_rejects_bad_patterns() {
    let m = IntersectionMatrix::empty();
    assert_eq!(m.matches("FFFFFFFF"), Err(InvalidPatternError));
    assert_eq!(m.matches("FFFFFFFFFF"), Err(InvalidPatternError));
    assert_eq!(m.matches("FFFFFFFFX"), Err(InvalidPatternError));
}

#[test]
fn matrix_crosses_by_dimension() {
    // a curve passing through an area: interiors meet, the curve leaves
    let m = IntersectionMatrix {
        ii: Dimensions::OneDimensional,
        ib: Dimensions::ZeroDimensional,
        ie: Dimensions::OneDimensional,
        bi: Dimensions::Empty,
        bb: Dimensions::Empty,
        be: Dimensions::ZeroDimensional,
        ei: Dimensions::TwoDimensional,
        eb: Dimensions::OneDimensional,
        ee: Dimensions::TwoDimensional,
    };
    assert!(m.is_crosses());
    assert!(m.transpose().is_crosses());
    assert!(!m.is_overlaps());
    assert!(!m.is_within());
}

#[test]
fn matrix_to_pattern() {
    let mut m = IntersectionMatrix::empty();
    assert_eq!(m.to_pattern(), "FFFFFFFFF");
    m.set(Location::Interior, Location::Interior, Dimensions::TwoDimensional);
    m.set(Location::Boundary, Location::Interior, Dimensions::OneDimensional);
    m.set(Location::Exterior, Location::Exterior, Dimensions::ZeroDimensional);
    let p = m.to_pattern();
    assert_eq!(p, "2FF1FFFF0");
    assert_eq!(m.matches(&p), Ok(true));
}

fn position(
    on: Option<Location>,
    left: Option<Location>,
    right: Option<Location>,
) -> TopologyPosition {
    TopologyPosition { on, left, right }
}

#[test]
fn matrix_from_area_edge_label() {
    // an edge on A's boundary, with A's interior on its left, lying inside B
    let label = Label {
        a: position(Some(Location::Boundary), Some(Location::Interior), Some(Location::Exterior)),
        b: position(Some(Location::Interior), Some(Location::Interior), Some(Location::Interior)),
    };
    let mut m = IntersectionMatrix::empty();
    m.set_at_least_from_label(&label, Dimensions::OneDimensional);
    assert_eq!(m.to_pattern(), "2FF1FF2FF");
}

#[test]
fn matrix_from_line_label_skips_unknown() {
    let label = Label {
        a: position(Some(Location::Interior), None, None),
        b: position(Some(Location::Boundary), None, None),
    };
    let mut m = IntersectionMatrix::empty();
    m.set_at_least_from_label(&label, Dimensions::ZeroDimensional);
    assert_eq!(m.to_pattern(), "F0FFFFFFF");
    let unknown = Label {
        a: position(None, None, None),
        b: position(Some(Location::Exterior), None, None),
    };
    m.set_at_least_from_label(&unknown, Dimensions::OneDimensional);
    assert_eq!(m.to_pattern(), "F0FFFFFFF");
    m.set_at_least_if_valid(Some(Location::Exterior), Some(Location::Exterior), Dimensions::TwoDimensional);
    m.set_at_least_if_valid(Some(Location::Exterior), Some(Location::Exterior), Dimensions::OneDimensional);
    assert_eq!(m.to_pattern(), "F0FFFFFF2");
}
