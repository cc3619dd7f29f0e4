use svgpath::{curve_anchors, curve_path_text, int_to_text, straight_path_text, CubicTo, PointText};

fn pt(x: &str, y: &str) -> PointText {
    PointText { x: x.to_string(), y: y.to_string() }
}

#[test]
fn integers_are_written_in_decimal() {
    assert_eq!(int_to_text(0), "0");
    assert_eq!(int_to_text(7), "7");
    assert_eq!(int_to_text(10), "10");
    assert_eq!(int_to_text(-42), "-42");
    assert_eq!(int_to_text(5527), "5527");
    assert_eq!(int_to_text(i64::MAX), i64::MAX.to_string());
    assert_eq!(int_to_text(i64::MIN), i64::MIN.to_string());
}

#[test]
fn right_angle_corner_is_kept() {
    let points = vec![pt("0", "0"), pt("3", "0"), pt("3", "3")];
    let (d, dropped) = straight_path_text(&points, &vec![false, false, false]);
    assert_eq!(d, "M 0,0L 3,0L 3,3");
    assert!(!dropped);
}

#[test]
fn sharp_interior_point_is_left_out() {
    let points = vec![pt("0", "0"), pt("3", "0"), pt("3", "3")];
    let (d, dropped) = straight_path_text(&points, &vec![false, true, false]);
    assert_eq!(d, "M 0,0L 3,3");
    assert!(dropped);
}

#[test]
fn end_points_are_always_kept() {
    let points = vec![pt("1.5", "-2"), pt("4", "4"), pt("5", "6"), pt("7", "8")];
    let (d, dropped) = straight_path_text(&points, &vec![true, false, true, true]);
    assert_eq!(d, "M 1.5,-2L 4,4L 7,8");
    assert!(dropped);
    let (d, dropped) = straight_path_text(&points[0..2].to_vec(), &vec![true, true]);
    assert_eq!(d, "M 1.5,-2L 4,4");
    assert!(!dropped);
}

#[test]
fn straight_path_has_no_more_lines_than_points() {
    let points = vec![pt("0", "0"), pt("1", "0"), pt("2", "0"), pt("3", "0"), pt("4", "0")];
    for mask in 0u32..32 {
        let sharp: Vec<bool> = (0..5).map(|i| mask & (1 << i) != 0).collect();
        let (d, _) = straight_path_text(&points, &sharp);
        assert!(d.starts_with("M 0,0"));
        assert!(d.ends_with("L 4,0"));
        assert_eq!(d.matches('M').count(), 1);
        assert!(d.matches('L').count() <= points.len() - 1);
    }
}

#[test]
fn anchors_fall_back_at_the_ends() {
    let a = curve_anchors(14, 1);
    assert_eq!((a.start, a.start_prev, a.start_next), (0, 0, 1));
    assert_eq!((a.end, a.end_prev, a.end_next), (1, 0, 2));
    let a = curve_anchors(14, 13);
    assert_eq!((a.start, a.start_prev, a.start_next), (12, 11, 13));
    assert_eq!((a.end, a.end_prev, a.end_next), (13, 12, 13));
    let a = curve_anchors(14, 5);
    assert_eq!((a.start, a.start_prev, a.start_next), (4, 3, 5));
    assert_eq!((a.end, a.end_prev, a.end_next), (5, 4, 6));
    let a = curve_anchors(2, 1);
    assert_eq!((a.start_prev, a.start_next, a.end_prev, a.end_next), (0, 1, 0, 1));
}

#[test]
fn curve_path_writes_one_move_and_one_cubic_per_curve() {
    let start = pt("5527", "4565");
    let curves = vec![
        CubicTo { c1x: 5527, c1y: 4565, c2x: 5519, c2y: 4570, x: 5519, y: 4570 },
        CubicTo { c1x: 5519, c1y: 4570, c2x: 5505, c2y: 4580, x: -5505, y: 0 },
    ];
    let d = curve_path_text(&start, &curves);
    assert_eq!(
        d,
        "M 5527,4565 C 5527,4565 5519,4570 5519,4570 C 5519,4570 5505,4580 -5505,0"
    );
    assert_eq!(d.matches('M').count(), 1);
    assert_eq!(d.matches('C').count(), 2);
    assert_eq!(curve_path_text(&start, &vec![]), "M 5527,4565");
}
