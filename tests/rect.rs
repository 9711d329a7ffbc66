use geo_relate::rect::{Coord, Rect};

#[test]
fn rect() {
    let rect = Rect::new((10, 10).into(), (20, 20).into());
    assert_eq!(rect.min(), Coord { x: 10, y: 10 });
    assert_eq!(rect.max(), Coord { x: 20, y: 20 });

    let rect = Rect::new((20, 20).into(), (10, 10).into());
    assert_eq!(rect.min(), Coord { x: 10, y: 10 });
    assert_eq!(rect.max(), Coord { x: 20, y: 20 });

    let rect = Rect::new((10, 20).into(), (20, 10).into());
    assert_eq!(rect.min(), Coord { x: 10, y: 10 });
    assert_eq!(rect.max(), Coord { x: 20, y: 20 });
}

#[test]
fn rect_width() {
    let rect = Rect::new((10, 10).into(), (20, 20).into());
    assert_eq!(rect.width(), 10);
}

#[test]
fn rect_height() {
    let rect = Rect::new((10, 10).into(), (20, 20).into());
    assert_eq!(rect.height(), 10);
}

#[test]
fn rect_center() {
    assert_eq!(
        Rect::new((0, 10).into(), (10, 90).into()).center(),
        Coord::from((5, 50))
    );
    assert_eq!(
        Rect::new((-42, -42).into(), (42, 42).into()).center(),
        Coord::from((0, 0))
    );
    assert_eq!(
        Rect::new((0, 0).into(), (0, 0).into()).center(),
        Coord::from((0, 0))
    );
}

#[test]
fn rect_center_rounds_down() {
    assert_eq!(
        Rect::new((0, -3).into(), (3, 0).into()).center(),
        Coord { x: 1, y: -2 }
    );
    let wide = Rect::new((i64::MIN, i64::MIN).into(), (i64::MAX, i64::MAX).into());
    assert_eq!(wide.center(), Coord { x: -1, y: -1 });
    assert_eq!(wide.width(), u64::MAX);
}

#[test]
fn rect_try_new_never_fails() {
    let rect = Rect::try_new((5, 1).into(), (1, 5).into()).unwrap();
    assert_eq!(rect.min(), Coord { x: 1, y: 1 });
    assert_eq!(rect.max(), Coord { x: 5, y: 5 });
}

#[test]
fn rect_set_min_and_max() {
    let mut rect = Rect::new((0, 0).into(), (10, 10).into());
    assert!(rect.set_min(Coord { x: 2, y: 3 }).is_ok());
    assert_eq!(rect.min(), Coord { x: 2, y: 3 });
    assert_eq!(rect.max(), Coord { x: 10, y: 10 });
    assert!(rect.set_max(Coord { x: 4, y: 3 }).is_ok());
    assert_eq!(rect.width(), 2);
    assert_eq!(rect.height(), 0);
}

#[test]
fn rect_set_rejects_crossed_bounds() {
    let mut rect = Rect::new((0, 0).into(), (10, 10).into());
    let err = rect.set_min(Coord { x: 11, y: 0 }).unwrap_err();
    assert!(err.message().contains("smaller or equal"));
    assert_eq!(rect.min(), Coord { x: 0, y: 0 });
    assert!(rect.set_max(Coord { x: 5, y: -1 }).is_err());
    assert_eq!(rect.max(), Coord { x: 10, y: 10 });
}

#[test]
fn rect_to_polygon() {
    let poly = Rect::new((0, 0).into(), (10, 20).into()).to_polygon();
    assert_eq!(
        poly.exterior,
        vec![
            Coord { x: 0, y: 0 },
            Coord { x: 0, y: 20 },
            Coord { x: 10, y: 20 },
            Coord { x: 10, y: 0 },
            Coord { x: 0, y: 0 },
        ]
    );
    assert!(poly.interiors.is_empty());
}
