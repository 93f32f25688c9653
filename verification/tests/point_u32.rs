use epicyclogon::point_u32::PointU32;

#[test]
fn new_keeps_both_coordinates() {
    let point = PointU32::new(3, 7);
    assert_eq!(point.x, 3);
    assert_eq!(point.y, 7);
    assert_eq!(point, PointU32 { x: 3, y: 7 });
}

#[test]
fn adding_moves_both_coordinates() {
    assert_eq!(PointU32::new(3, 7) + 5, PointU32::new(8, 12));
    assert_eq!(PointU32::new(0, u32::MAX - 1) + 1, PointU32::new(1, u32::MAX));
}

#[test]
fn subtracting_moves_both_coordinates_back() {
    assert_eq!(PointU32::new(8, 12) - 5, PointU32::new(3, 7));
    assert_eq!(PointU32::new(5, 5) - 5, PointU32::new(0, 0));
}

#[test]
fn multiplying_scales_both_coordinates() {
    assert_eq!(PointU32::new(3, 7) * 4, PointU32::new(12, 28));
    assert_eq!(PointU32::new(3, 7) * 0, PointU32::new(0, 0));
}

#[test]
fn adding_then_subtracting_restores_the_point() {
    let point = PointU32::new(41, 1000);
    assert_eq!((point + 59) - 59, point);
}

#[test]
fn points_are_ordered_by_x_then_y() {
    assert!(PointU32::new(1, 9) < PointU32::new(2, 0));
    assert!(PointU32::new(1, 1) < PointU32::new(1, 2));
}
