use epicyclogon::line::{Closest, DegenerateGeometryError, Line};
use epicyclogon::polygon::{
    vertex_angle_multiple, Alignment, Direction, DistanceError, NoVertices, Polygon, Shift,
};
use epicyclogon::scalar::{Point2, Scalar};
use geo::ClosestPoint;

#[derive(Clone, Copy, Debug, PartialEq, PartialOrd)]
struct Real(f64);

impl Scalar for Real {
    fn zero() -> Self {
        Real(0.0)
    }
    fn from_count(count: u128) -> Self {
        Real(count as f64)
    }
    fn plus(self, other: Self) -> Self {
        Real(self.0 + other.0)
    }
    fn minus(self, other: Self) -> Self {
        Real(self.0 - other.0)
    }
    fn times(self, other: Self) -> Self {
        Real(self.0 * other.0)
    }
    fn over(self, other: Self) -> Self {
        Real(self.0 / other.0)
    }
    fn negated(self) -> Self {
        Real(-self.0)
    }
    fn square_root(self) -> Self {
        Real(self.0.sqrt())
    }
    fn sine(self) -> Self {
        Real(self.0.sin())
    }
    fn cosine(self) -> Self {
        Real(self.0.cos())
    }
    fn arc_cosine(self) -> Self {
        Real(self.0.acos())
    }
    fn radians(self) -> Self {
        Real(self.0.to_radians())
    }
    fn equals(self, other: Self) -> bool {
        self.0 == other.0
    }
    fn less_than(self, other: Self) -> bool {
        self.0 < other.0
    }
}

fn pt(x: f64, y: f64) -> Point2<Real> {
    Point2::new(Real(x), Real(y))
}

fn xy(p: Point2<Real>) -> (f64, f64) {
    (p.x.0, p.y.0)
}

/// Whole numbers, for arithmetic without rounding.
#[derive(Clone, Copy, Debug, PartialEq)]
struct Whole(i64);

impl Scalar for Whole {
    fn zero() -> Self {
        Whole(0)
    }
    fn from_count(count: u128) -> Self {
        Whole(count as i64)
    }
    fn plus(self, other: Self) -> Self {
        Whole(self.0 + other.0)
    }
    fn minus(self, other: Self) -> Self {
        Whole(self.0 - other.0)
    }
    fn times(self, other: Self) -> Self {
        Whole(self.0 * other.0)
    }
    fn over(self, other: Self) -> Self {
        Whole(self.0 / other.0)
    }
    fn negated(self) -> Self {
        Whole(-self.0)
    }
    fn square_root(self) -> Self {
        Whole((self.0 as f64).sqrt() as i64)
    }
    fn sine(self) -> Self {
        // Angles are counted in quarter turns.
        Whole([0, 1, 0, -1][self.0.rem_euclid(4) as usize])
    }
    fn cosine(self) -> Self {
        Whole([1, 0, -1, 0][self.0.rem_euclid(4) as usize])
    }
    fn arc_cosine(self) -> Self {
        Whole(1 - self.0)
    }
    fn radians(self) -> Self {
        Whole(self.0 / 90)
    }
    fn equals(self, other: Self) -> bool {
        self.0 == other.0
    }
    fn less_than(self, other: Self) -> bool {
        self.0 < other.0
    }
}

fn lattice(points: &[(i64, i64)]) -> Polygon<Point2<Whole>> {
    Polygon::from_points(points.iter().map(|p| Point2::new(Whole(p.0), Whole(p.1))).collect())
}

fn places(polygon: &Polygon<Point2<Whole>>) -> Vec<(i64, i64)> {
    polygon.points.iter().map(|p| (p.x.0, p.y.0)).collect()
}

fn shape(points: &[(f64, f64)]) -> Polygon<Point2<Real>> {
    Polygon::from_points(points.iter().map(|p| pt(p.0, p.1)).collect())
}

fn corners(polygon: &Polygon<Point2<Real>>) -> Vec<(f64, f64)> {
    polygon.points.iter().map(|p| xy(*p)).collect()
}

fn close(a: (f64, f64), b: (f64, f64)) -> bool {
    (a.0 - b.0).abs() < 1e-9 && (a.1 - b.1).abs() < 1e-9
}

fn search(polygon: &Polygon<Point2<Real>>, point: Point2<Real>) -> Closest<Point2<Real>> {
    let ring: Vec<geo::Coord<f64>> =
        polygon.points.iter().map(|v| geo::Coord { x: v.x.0, y: v.y.0 }).collect();
    let shape = geo::Polygon::new(geo::LineString::from(ring), vec![]);
    match shape.closest_point(&geo::Point::new(point.x.0, point.y.0)) {
        geo::Closest::Intersection(q) => Closest::Intersection(pt(q.x(), q.y())),
        geo::Closest::SinglePoint(q) => Closest::SinglePoint(pt(q.x(), q.y())),
        geo::Closest::Indeterminate => Closest::Indeterminate,
    }
}

#[test]
fn angle_multiples_of_a_square() {
    assert_eq!(vertex_angle_multiple(4, 0), 1);
    assert_eq!(vertex_angle_multiple(4, 1), 3);
    assert_eq!(vertex_angle_multiple(4, 2), 5);
    assert_eq!(vertex_angle_multiple(4, 3), 7);
}

#[test]
fn angle_multiples_of_a_triangle() {
    assert_eq!(vertex_angle_multiple(3, 0), 2);
    assert_eq!(vertex_angle_multiple(3, 1), 4);
    assert_eq!(vertex_angle_multiple(3, 2), 6);
}

#[test]
fn angle_multiples_do_not_overflow() {
    assert_eq!(
        vertex_angle_multiple(usize::MAX, usize::MAX - 1),
        2 + 2 * (usize::MAX as u128 - 1)
    );
}

#[test]
fn regular_polygon_has_as_many_vertices_as_sides() {
    for sides in 0..12usize {
        let polygon: Polygon<Point2<Real>> = Polygon::new(Real(100.0), sides);
        assert_eq!(polygon.len(), sides);
        assert_eq!(polygon.points.len(), sides);
    }
}

#[test]
fn regular_polygon_lies_on_its_circle() {
    for sides in 3..12usize {
        let polygon: Polygon<Point2<Real>> = Polygon::new(Real(100.0), sides);
        for k in 0..sides {
            let (x, y) = xy(polygon.vertex(k));
            assert!((x.hypot(y) - 100.0).abs() < 1e-9);
            for other in 0..k {
                assert!(!close(xy(polygon.vertex(k)), xy(polygon.vertex(other))));
            }
        }
    }
}

#[test]
fn regular_square_starts_at_the_upper_right() {
    let square: Polygon<Point2<Real>> = Polygon::new(Real(100.0), 4);
    let half = 100.0 * std::f64::consts::FRAC_1_SQRT_2;
    assert!(close(xy(square.vertex(0)), (half, half)));
    assert!(close(xy(square.vertex(1)), (half, -half)));
    assert!(close(xy(square.vertex(2)), (-half, -half)));
    assert!(close(xy(square.vertex(3)), (-half, half)));
}

#[test]
fn regular_triangle_has_a_flat_bottom() {
    let triangle: Polygon<Point2<Real>> = Polygon::new(Real(100.0), 3);
    let (x0, y0) = xy(triangle.vertex(0));
    let (x1, y1) = xy(triangle.vertex(1));
    assert!((y0 - y1).abs() < 1e-9);
    assert!((x0 + x1).abs() < 1e-9);
    assert!(close(xy(triangle.vertex(2)), (0.0, 100.0)));
}

#[test]
fn from_points_keeps_the_order() {
    let polygon = Polygon::from_points(vec![7, 8, 9]);
    assert_eq!(polygon.len(), 3);
    assert_eq!(polygon.vertex(0), 7);
    assert_eq!(polygon.vertex(1), 8);
    assert_eq!(polygon.vertex(2), 9);
    assert_eq!(polygon.copy().points, vec![7, 8, 9]);
}

#[test]
fn index_after_wraps_around() {
    let polygon = Polygon::from_points(vec![7, 8, 9]);
    assert_eq!(polygon.index_after(0), 1);
    assert_eq!(polygon.index_after(2), 0);
}

#[test]
fn edges_close_the_ring() {
    let polygon = Polygon::from_points(vec![7, 8, 9]);
    let first: Line<i32> = polygon.edge(0);
    let last: Line<i32> = polygon.edge(2);
    assert_eq!((first.point1, first.point2), (7, 8));
    assert_eq!((last.point1, last.point2), (9, 7));
}

#[test]
fn translate_moves_every_vertex() {
    let mut polygon = shape(&[(1.0, 2.0), (3.0, 4.0), (5.0, 6.0)]);
    polygon.translate(pt(10.0, -1.0));
    assert_eq!(corners(&polygon), vec![(11.0, 1.0), (13.0, 3.0), (15.0, 5.0)]);
}

#[test]
fn translate_and_back_restores_the_vertices() {
    let start = [(1, 2), (-3, 4), (5, -6)];
    let mut polygon = lattice(&start);
    polygon.translate(Point2::new(Whole(17), Whole(-40)));
    assert_eq!(places(&polygon), vec![(18, -38), (14, -36), (22, -46)]);
    polygon.translate(Point2::new(Whole(-17), Whole(40)));
    assert_eq!(places(&polygon), start.to_vec());
}

#[test]
fn translate_and_back_restores_the_vertices_up_to_rounding() {
    let mut polygon: Polygon<Point2<Real>> = Polygon::new(Real(100.0), 7);
    let start = corners(&polygon);
    polygon.translate(pt(0.1, 1e7));
    polygon.translate(pt(-0.1, -1e7));
    for (after, before) in corners(&polygon).iter().zip(&start) {
        assert!((after.0 - before.0).abs() < 1e-8 && (after.1 - before.1).abs() < 1e-8);
    }
}

#[test]
fn rotate_around_point_turns_clockwise() {
    // A quarter turn about (1, 1).
    let mut polygon = lattice(&[(1, 2), (-3, 4), (5, -6)]);
    polygon.rotate_around_point(Point2::new(Whole(1), Whole(1)), Whole(1));
    assert_eq!(places(&polygon), vec![(2, 1), (4, 5), (-6, -3)]);
}

#[test]
fn rotate_and_back_restores_the_vertices() {
    let start = [(1, 2), (-3, 4), (5, -6)];
    let mut polygon = lattice(&start);
    polygon.rotate_around_point(Point2::new(Whole(1), Whole(1)), Whole(1));
    polygon.rotate_around_point(Point2::new(Whole(1), Whole(1)), Whole(-1));
    assert_eq!(places(&polygon), start.to_vec());
}

#[test]
fn rotate_and_back_restores_the_vertices_up_to_rounding() {
    let mut polygon: Polygon<Point2<Real>> = Polygon::new(Real(100.0), 5);
    let start = corners(&polygon);
    polygon.rotate_around_point(pt(30.0, -20.0), Real(1.234));
    assert!(!close(corners(&polygon)[0], start[0]));
    polygon.rotate_around_point(pt(30.0, -20.0), Real(-1.234));
    for (after, before) in corners(&polygon).iter().zip(&start) {
        assert!(close(*after, *before));
    }
}

#[test]
fn rotate_turns_about_the_centroid() {
    let mut polygon = lattice(&[(0, 0), (4, 0), (4, 4), (0, 4)]);
    assert_eq!(polygon.rotate(Whole(1)), Ok(()));
    assert_eq!(places(&polygon), vec![(0, 4), (0, 0), (4, 0), (4, 4)]);
}

#[test]
fn dilate_from_point_stretches_the_offsets() {
    let mut polygon = shape(&[(1.0, 2.0), (-3.0, 4.0), (5.0, -6.0)]);
    polygon.dilate_from_point(Real(4.0), pt(1.0, 1.0));
    assert_eq!(corners(&polygon), vec![(1.0, 5.0), (-15.0, 13.0), (17.0, -27.0)]);
}

#[test]
fn dilate_and_back_restores_the_vertices() {
    let start = [(1.0, 2.0), (-3.0, 4.0), (5.0, -6.0)];
    let mut polygon = shape(&start);
    polygon.dilate_from_point(Real(4.0), pt(1.0, 1.0));
    polygon.dilate_from_point(Real(0.25), pt(1.0, 1.0));
    assert_eq!(corners(&polygon), start.to_vec());
}

#[test]
fn dilate_stretches_from_the_centroid() {
    let mut polygon = shape(&[(0.0, 0.0), (4.0, 0.0), (4.0, 4.0), (0.0, 4.0)]);
    assert_eq!(polygon.dilate(Real(0.5)), Ok(()));
    assert_eq!(corners(&polygon), vec![(1.0, 1.0), (3.0, 1.0), (3.0, 3.0), (1.0, 3.0)]);
}

#[test]
fn the_centroid_is_the_mean_of_the_vertices() {
    let polygon = shape(&[(0.0, 0.0), (4.0, 0.0), (4.0, 4.0), (0.0, 8.0)]);
    assert_eq!(xy(polygon.centroid().unwrap()), (2.0, 3.0));
    assert_eq!(xy(shape(&[(7.0, -1.0)]).centroid().unwrap()), (7.0, -1.0));
}

#[test]
fn the_bounding_box_holds_every_vertex() {
    let polygon = shape(&[(1.0, 5.0), (-4.0, 2.0), (3.0, -7.0), (0.0, 0.0)]);
    let bounds = polygon.bounding_box().unwrap();
    assert_eq!((bounds.x.start, bounds.x.end), (Real(-4.0), Real(3.0)));
    assert_eq!((bounds.y.start, bounds.y.end), (Real(-7.0), Real(5.0)));
    assert_eq!(bounds.w(), Real(7.0));
    assert_eq!(bounds.h(), Real(12.0));
    let single = shape(&[(2.0, 3.0)]).bounding_box().unwrap();
    assert_eq!((single.x.start, single.x.end), (Real(2.0), Real(2.0)));
    assert_eq!(single.w(), Real(0.0));
}

#[test]
fn operations_on_an_empty_polygon() {
    let mut empty = shape(&[]);
    assert_eq!(empty.bounding_box().err(), Some(NoVertices));
    assert_eq!(empty.centroid().err(), Some(NoVertices));
    assert_eq!(empty.rotate(Real(1.0)), Err(NoVertices));
    assert_eq!(empty.dilate(Real(2.0)), Err(NoVertices));
    assert_eq!(empty.distance_to_point(pt(0.0, 0.0), &search), Err(DistanceError::NoVertices));
    assert!(!empty.point_touches_edge(pt(0.0, 0.0)));
    empty.translate(pt(1.0, 1.0));
    empty.rotate_around_point(pt(1.0, 1.0), Real(1.0));
    empty.dilate_from_point(Real(2.0), pt(1.0, 1.0));
    assert_eq!(empty.reflect(Line { point1: pt(0.0, 0.0), point2: pt(1.0, 1.0) }), Ok(()));
    assert_eq!(empty.len(), 0);
}

#[test]
fn alignment_centres_one_axis_and_touches_on_the_other() {
    assert_eq!(
        Direction::Above.alignment(),
        Alignment { x: Shift::CentreToCentre, y: Shift::StartToEnd }
    );
    assert_eq!(
        Direction::Right.alignment(),
        Alignment { x: Shift::StartToEnd, y: Shift::CentreToCentre }
    );
    assert_eq!(
        Direction::Below.alignment(),
        Alignment { x: Shift::CentreToCentre, y: Shift::EndToStart }
    );
    assert_eq!(
        Direction::Left.alignment(),
        Alignment { x: Shift::EndToStart, y: Shift::CentreToCentre }
    );
}

#[test]
fn opposite_directions_face_each_other() {
    assert_eq!(Direction::Above.opposite(), Direction::Below);
    assert_eq!(Direction::Below.opposite(), Direction::Above);
    assert_eq!(Direction::Left.opposite(), Direction::Right);
    assert_eq!(Direction::Right.opposite(), Direction::Left);
}

#[test]
fn align_puts_the_boxes_side_by_side() {
    let other = shape(&[(10.0, 10.0), (14.0, 10.0), (14.0, 16.0), (10.0, 16.0)]);
    let start = [(0.0, 0.0), (2.0, 0.0), (2.0, 2.0), (0.0, 2.0)];
    let expected = [
        (Direction::Above, (11.0, 16.0)),
        (Direction::Right, (14.0, 12.0)),
        (Direction::Below, (11.0, 8.0)),
        (Direction::Left, (8.0, 12.0)),
    ];
    for (direction, corner) in expected {
        let mut polygon = shape(&start);
        assert_eq!(polygon.align(&other, direction), Ok(()));
        let moved = corners(&polygon);
        assert_eq!(moved[0], corner);
        assert_eq!(moved[2], (corner.0 + 2.0, corner.1 + 2.0));
    }
}

#[test]
fn align_needs_vertices_on_both_sides() {
    let mut empty = shape(&[]);
    let mut full = shape(&[(0.0, 0.0), (2.0, 0.0), (2.0, 2.0)]);
    assert_eq!(empty.align(&full, Direction::Above), Err(NoVertices));
    assert_eq!(full.align(&empty, Direction::Above), Err(NoVertices));
    assert_eq!(corners(&full), vec![(0.0, 0.0), (2.0, 0.0), (2.0, 2.0)]);
}

#[test]
fn reflect_mirrors_every_vertex() {
    let mut polygon = shape(&[(1.0, 3.0), (0.0, 0.0), (-2.0, 5.0)]);
    let diagonal = Line { point1: pt(0.0, 0.0), point2: pt(1.0, 1.0) };
    assert_eq!(polygon.reflect(diagonal), Ok(()));
    assert_eq!(corners(&polygon), vec![(3.0, 1.0), (0.0, 0.0), (5.0, -2.0)]);
    let upright = Line { point1: pt(1.0, 0.0), point2: pt(1.0, 9.0) };
    assert_eq!(polygon.reflect(upright), Ok(()));
    assert_eq!(corners(&polygon), vec![(-1.0, 1.0), (2.0, 0.0), (-3.0, -2.0)]);
}

#[test]
fn reflect_in_no_line_changes_nothing() {
    let mut polygon = shape(&[(1.0, 3.0), (0.0, 0.0), (-2.0, 5.0)]);
    let point = Line { point1: pt(1.0, 1.0), point2: pt(1.0, 1.0) };
    assert_eq!(polygon.reflect(point), Err(DegenerateGeometryError::CoincidentPoints));
    assert_eq!(corners(&polygon), vec![(1.0, 3.0), (0.0, 0.0), (-2.0, 5.0)]);
}

#[test]
fn distance_to_point_is_measured_to_the_boundary() {
    let square = shape(&[(0.0, 0.0), (4.0, 0.0), (4.0, 4.0), (0.0, 4.0)]);
    assert_eq!(square.distance_to_point(pt(7.0, 2.0), &search), Ok(Real(3.0)));
    assert_eq!(square.distance_to_point(pt(7.0, 8.0), &search), Ok(Real(5.0)));
    assert_eq!(square.distance_to_point(pt(4.0, 1.0), &search), Ok(Real(0.0)));
    assert_eq!(square.distance_to_point(pt(0.0, 0.0), &search), Ok(Real(0.0)));
}

#[test]
fn distance_to_point_follows_the_search() {
    let square = shape(&[(0.0, 0.0), (4.0, 0.0), (4.0, 4.0), (0.0, 4.0)]);
    let lost = |_: &Polygon<Point2<Real>>, _: Point2<Real>| Closest::Indeterminate;
    assert_eq!(
        square.distance_to_point(pt(7.0, 2.0), &lost),
        Err(DistanceError::IndeterminateNearestPoint)
    );
    let fixed = |_: &Polygon<Point2<Real>>, _: Point2<Real>| Closest::SinglePoint(pt(1.0, 1.0));
    assert_eq!(square.distance_to_point(pt(4.0, 5.0), &fixed), Ok(Real(5.0)));
    let on = |_: &Polygon<Point2<Real>>, p: Point2<Real>| Closest::Intersection(p);
    assert_eq!(square.distance_to_point(pt(9.0, 9.0), &on), Ok(Real(0.0)));
}

#[test]
fn point_touches_an_edge_of_the_square() {
    let square = shape(&[(0.0, 0.0), (2.0, 2.0), (4.0, 0.0), (2.0, -2.0)]);
    assert!(square.point_touches_edge(pt(1.0, 1.0)));
    assert!(square.point_touches_edge(pt(3.0, 1.0)));
    assert!(square.point_touches_edge(pt(1.0, -1.0)));
    // The test is made on the whole line through an edge.
    assert!(square.point_touches_edge(pt(5.0, 5.0)));
    assert!(!square.point_touches_edge(pt(2.0, 0.5)));
}

#[test]
fn point_touches_an_upright_edge() {
    let square = shape(&[(0.0, 0.0), (4.0, 0.0), (4.0, 4.0), (0.0, 4.0)]);
    assert!(square.point_touches_edge(pt(4.0, 1.0)));
    assert!(square.point_touches_edge(pt(0.0, 3.0)));
    assert!(square.point_touches_edge(pt(1.0, 4.0)));
    assert!(!square.point_touches_edge(pt(1.0, 1.0)));
}
