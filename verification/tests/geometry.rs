use svg2librepcb::geom::{compute_bounds, compute_offset, polyline_is_closed, Align, Bounds, Point};

fn pt(x: i64, y: i64) -> Point {
    Point { x, y }
}

#[test]
fn bounds_of_two_polylines() {
    let pls = vec![
        vec![pt(0, 0), pt(2000, 2000)],
        vec![pt(-1000, 4000), pt(500, -300)],
    ];
    let b = compute_bounds(&pls).unwrap();
    assert_eq!(b.x_min, -1000);
    assert_eq!(b.x_max, 2000);
    assert_eq!(b.y_min, -300);
    assert_eq!(b.y_max, 4000);
}

#[test]
fn bounds_single_point_is_zero_area() {
    let pls = vec![vec![pt(1500, -2500)]];
    let b = compute_bounds(&pls).unwrap();
    assert_eq!(b.x_min, 1500);
    assert_eq!(b.x_max, 1500);
    assert_eq!(b.y_min, -2500);
    assert_eq!(b.y_max, -2500);
}

#[test]
fn bounds_empty_collection_absent() {
    let pls: Vec<Vec<Point>> = vec![];
    assert!(compute_bounds(&pls).is_none());
}

#[test]
fn closedness_classification() {
    let closed = vec![
        pt(0, 0),
        pt(10_000, 0),
        pt(10_000, 10_000),
        pt(0, 10_000),
        pt(0, 0),
    ];
    assert!(polyline_is_closed(&closed));
    let mut open = closed.clone();
    open.pop();
    assert!(!polyline_is_closed(&open));
}

#[test]
fn offsets_follow_alignment_mode() {
    let b = Bounds { x_min: 0, x_max: 4000, y_min: 0, y_max: 4000 };
    assert_eq!(compute_offset(&b, Align::Center), (-2000, -2000));
    assert_eq!(compute_offset(&b, Align::Unchanged), (0, 0));
    let b2 = Bounds { x_min: 1000, x_max: 3000, y_min: 2000, y_max: 5000 };
    assert_eq!(compute_offset(&b2, Align::TopLeft), (-1000, -2000));
    assert_eq!(compute_offset(&b2, Align::BottomLeft), (-1000, -5000));
    assert_eq!(compute_offset(&b2, Align::Center), (-2000, -3500));
}

#[test]
fn center_alignment_recentered_bounds_symmetric() {
    let pls = vec![
        vec![pt(100, 200), pt(3100, 4201)],
        vec![pt(500, 500)],
    ];
    let b = compute_bounds(&pls).unwrap();
    let (dx, dy) = compute_offset(&b, Align::Center);
    let transformed: Vec<Vec<Point>> = pls
        .iter()
        .map(|pl| pl.iter().map(|p| pt(p.x + dx, -(p.y + dy))).collect())
        .collect();
    let tb = compute_bounds(&transformed).unwrap();
    assert!((tb.x_min + tb.x_max).abs() <= 1);
    assert!((tb.y_min + tb.y_max).abs() <= 1);
}
