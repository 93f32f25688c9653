use epicyclogon::line::{
    crossing, orientation, Closest, Crossing, DegenerateGeometryError, Line, LineIntersection,
    Nearest, Orientation,
};
use epicyclogon::scalar::{Point2, Scalar};

#[derive(Clone, Copy, Debug, PartialEq, PartialOrd)]
struct Real(f64);

impl Scalar for Real {
    fn zero() -> Self {
        Real(0.0)
    }
    fn from_count(count: u128) -> Self {
        Real(count as f64)
    }
    fn plus(self, other: Self) -> Self {
        Real(self.0 + other.0)
    }
    fn minus(self, other: Self) -> Self {
        Real(self.0 - other.0)
    }
    fn times(self, other: Self) -> Self {
        Real(self.0 * other.0)
    }
    fn over(self, other: Self) -> Self {
        Real(self.0 / other.0)
    }
    fn negated(self) -> Self {
        Real(-self.0)
    }
    fn square_root(self) -> Self {
        Real(self.0.sqrt())
    }
    fn sine(self) -> Self {
        Real(self.0.sin())
    }
    fn cosine(self) -> Self {
        Real(self.0.cos())
    }
    fn arc_cosine(self) -> Self {
        Real(self.0.acos())
    }
    fn radians(self) -> Self {
        Real(self.0.to_radians())
    }
    fn equals(self, other: Self) -> bool {
        self.0 == other.0
    }
    fn less_than(self, other: Self) -> bool {
        self.0 < other.0
    }
}

fn pt(x: f64, y: f64) -> Point2<Real> {
    Point2::new(Real(x), Real(y))
}

fn xy(p: Point2<Real>) -> (f64, f64) {
    (p.x.0, p.y.0)
}

fn line(a: (f64, f64), b: (f64, f64)) -> Line<Point2<Real>> {
    Line { point1: pt(a.0, a.1), point2: pt(b.0, b.1) }
}

fn meet(first: Line<Point2<Real>>, second: Line<Point2<Real>>) -> Option<(f64, f64)> {
    match first.intersect(second).unwrap() {
        LineIntersection::Point(p) => Some(xy(p)),
        _ => None,
    }
}

#[test]
fn orientation_tells_the_three_cases_apart() {
    assert_eq!(orientation(true, false), Ok(Orientation::Vertical));
    assert_eq!(orientation(false, true), Ok(Orientation::Horizontal));
    assert_eq!(orientation(false, false), Ok(Orientation::Sloped));
    assert_eq!(line((1.0, 0.0), (1.0, 5.0)).orientation(), Ok(Orientation::Vertical));
    assert_eq!(line((1.0, 5.0), (2.0, 5.0)).orientation(), Ok(Orientation::Horizontal));
    assert_eq!(line((1.0, 5.0), (2.0, 6.0)).orientation(), Ok(Orientation::Sloped));
}

#[test]
fn coincident_points_make_no_line() {
    assert_eq!(orientation(true, true), Err(DegenerateGeometryError::CoincidentPoints));
    let point = line((1.0, 5.0), (1.0, 5.0));
    assert_eq!(point.orientation(), Err(DegenerateGeometryError::CoincidentPoints));
    assert_eq!(
        point.intersect(line((0.0, 0.0), (1.0, 1.0))).err(),
        Some(DegenerateGeometryError::CoincidentPoints)
    );
    assert_eq!(
        line((0.0, 0.0), (1.0, 1.0)).intersect(point).err(),
        Some(DegenerateGeometryError::CoincidentPoints)
    );
    assert_eq!(
        point.reflect_point(pt(0.0, 0.0)).err(),
        Some(DegenerateGeometryError::CoincidentPoints)
    );
    assert!(!point.passes_through(pt(1.0, 5.0)));
}

#[test]
fn perpendicular_swaps_vertical_and_horizontal() {
    assert_eq!(Orientation::Vertical.perpendicular(), Orientation::Horizontal);
    assert_eq!(Orientation::Horizontal.perpendicular(), Orientation::Vertical);
    assert_eq!(Orientation::Sloped.perpendicular(), Orientation::Sloped);
}

#[test]
fn gradient_is_rise_over_run() {
    assert_eq!(line((1.0, 1.0), (3.0, 7.0)).gradient(), Real(3.0));
    assert_eq!(line((3.0, 7.0), (1.0, 1.0)).gradient(), Real(3.0));
    assert_eq!(line((1.0, 4.0), (3.0, 4.0)).gradient(), Real(0.0));
    assert_eq!(line((1.0, 4.0), (5.0, 2.0)).gradient(), Real(-0.5));
}

#[test]
fn gradient_of_a_vertical_line_is_infinite() {
    assert_eq!(line((2.0, 1.0), (2.0, 7.0)).gradient(), Real(f64::INFINITY));
    assert_eq!(line((2.0, 7.0), (2.0, 1.0)).gradient(), Real(f64::NEG_INFINITY));
}

#[test]
fn y_intercept_is_the_height_on_the_y_axis() {
    assert_eq!(line((1.0, 1.0), (3.0, 7.0)).y_intercept(), Real(-2.0));
    assert_eq!(line((1.0, 4.0), (3.0, 4.0)).y_intercept(), Real(4.0));
    assert_eq!(line((0.0, 9.0), (3.0, 0.0)).y_intercept(), Real(9.0));
}

#[test]
fn from_point_gradient_goes_through_the_point() {
    let made = Line::from_point_gradient(pt(2.0, 7.0), Real(3.0));
    assert_eq!(xy(made.point1), (0.0, 1.0));
    assert_eq!(xy(made.point2), (2.0, 7.0));
    assert_eq!(made.gradient(), Real(3.0));
    assert_eq!(made.y_intercept(), Real(1.0));
}

#[test]
fn from_point_gradient_works_on_the_y_axis() {
    let made = Line::from_point_gradient(pt(0.0, 7.0), Real(3.0));
    assert_eq!(xy(made.point1), (0.0, 7.0));
    assert_eq!(xy(made.point2), (1.0, 10.0));
    assert_eq!(made.gradient(), Real(3.0));
}

#[test]
fn crossing_of_sloped_lines_follows_both_comparisons() {
    let s = Orientation::Sloped;
    assert_eq!(crossing(s, s, true, true), Crossing::Coincident);
    assert_eq!(crossing(s, s, true, false), Crossing::Parallel);
    assert_eq!(crossing(s, s, false, true), Crossing::OnYAxis);
    assert_eq!(crossing(s, s, false, false), Crossing::Solved);
    assert_eq!(crossing(Orientation::Horizontal, s, false, false), Crossing::Solved);
}

#[test]
fn crossing_with_vertical_lines_is_special() {
    let v = Orientation::Vertical;
    assert_eq!(crossing(v, v, true, true), Crossing::Coincident);
    assert_eq!(crossing(v, v, false, true), Crossing::Coincident);
    assert_eq!(crossing(v, v, true, false), Crossing::Parallel);
    assert_eq!(crossing(v, Orientation::Sloped, false, false), Crossing::OnFirstVertical);
    assert_eq!(crossing(Orientation::Horizontal, v, true, true), Crossing::OnSecondVertical);
}

#[test]
fn crossing_is_a_point_in_four_cases() {
    assert!(!Crossing::Coincident.is_point());
    assert!(!Crossing::Parallel.is_point());
    assert!(Crossing::OnYAxis.is_point());
    assert!(Crossing::OnFirstVertical.is_point());
    assert!(Crossing::OnSecondVertical.is_point());
    assert!(Crossing::Solved.is_point());
}

#[test]
fn crossing_is_symmetric_up_to_the_vertical_line() {
    let all = [Orientation::Vertical, Orientation::Horizontal, Orientation::Sloped];
    for first in all {
        for second in all {
            for same_gradient in [false, true] {
                for same_offset in [false, true] {
                    let one = crossing(first, second, same_gradient, same_offset);
                    let other = crossing(second, first, same_gradient, same_offset);
                    assert_eq!(one.is_point(), other.is_point());
                    let mirrored = match one {
                        Crossing::OnFirstVertical => Crossing::OnSecondVertical,
                        Crossing::OnSecondVertical => Crossing::OnFirstVertical,
                        same => same,
                    };
                    assert_eq!(other, mirrored);
                }
            }
        }
    }
}

#[test]
fn diagonals_of_the_unit_square_cross_in_its_middle() {
    let rising = line((0.0, 0.0), (1.0, 1.0));
    let falling = line((0.0, 1.0), (1.0, 0.0));
    assert_eq!(meet(rising, falling), Some((0.5, 0.5)));
    assert_eq!(meet(falling, rising), Some((0.5, 0.5)));
}

#[test]
fn intersection_does_not_depend_on_the_order_of_the_lines() {
    let lines = [
        line((0.0, 0.0), (1.0, 1.0)),
        line((0.0, 1.0), (1.0, 0.0)),
        line((2.0, -1.0), (2.0, 5.0)),
        line((-3.0, 4.0), (5.0, 4.0)),
        line((1.0, 0.0), (5.0, 2.0)),
    ];
    for first in lines {
        for second in lines {
            assert_eq!(meet(first, second), meet(second, first));
        }
    }
}

#[test]
fn lines_with_one_intercept_cross_on_the_y_axis() {
    let rising = line((0.0, 2.0), (1.0, 3.0));
    let falling = line((1.0, 1.0), (2.0, 0.0));
    assert_eq!(meet(rising, falling), Some((0.0, 2.0)));
}

#[test]
fn parallel_and_coincident_lines_have_no_point() {
    let base = line((0.0, 0.0), (2.0, 2.0));
    let shifted = line((0.0, 1.0), (2.0, 3.0));
    let same = line((1.0, 1.0), (3.0, 3.0));
    assert!(matches!(base.intersect(shifted), Ok(LineIntersection::Parallel)));
    assert!(matches!(base.intersect(same), Ok(LineIntersection::Coincident)));
    assert!(matches!(base.intersect(base), Ok(LineIntersection::Coincident)));
}

#[test]
fn vertical_lines_are_parallel_or_one() {
    let left = line((1.0, 0.0), (1.0, 2.0));
    let right = line((3.0, 5.0), (3.0, -2.0));
    let again = line((1.0, 9.0), (1.0, 8.0));
    assert!(matches!(left.intersect(right), Ok(LineIntersection::Parallel)));
    assert!(matches!(left.intersect(again), Ok(LineIntersection::Coincident)));
}

#[test]
fn a_vertical_line_is_crossed_at_its_x() {
    let upright = line((2.0, -1.0), (2.0, 5.0));
    let rising = line((0.0, 1.0), (1.0, 2.0));
    let level = line((-3.0, 4.0), (5.0, 4.0));
    assert_eq!(meet(upright, rising), Some((2.0, 3.0)));
    assert_eq!(meet(rising, upright), Some((2.0, 3.0)));
    assert_eq!(meet(upright, level), Some((2.0, 4.0)));
    assert_eq!(meet(level, upright), Some((2.0, 4.0)));
}

#[test]
fn reflection_in_a_vertical_or_horizontal_line() {
    let upright = line((2.0, -1.0), (2.0, 5.0));
    let level = line((-3.0, 4.0), (5.0, 4.0));
    assert_eq!(xy(upright.reflect_point(pt(5.0, 1.0)).unwrap()), (-1.0, 1.0));
    assert_eq!(xy(level.reflect_point(pt(5.0, 1.0)).unwrap()), (5.0, 7.0));
    assert_eq!(xy(level.reflect_point(pt(5.0, 4.0)).unwrap()), (5.0, 4.0));
}

#[test]
fn reflection_in_a_sloped_line() {
    let diagonal = line((0.0, 0.0), (1.0, 1.0));
    assert_eq!(xy(diagonal.reflect_point(pt(3.0, 1.0)).unwrap()), (1.0, 3.0));
    assert_eq!(xy(diagonal.reflect_point(pt(0.0, 4.0)).unwrap()), (4.0, 0.0));
    assert_eq!(xy(diagonal.reflect_point(pt(2.0, 2.0)).unwrap()), (2.0, 2.0));
    let steep = line((0.0, 1.0), (1.0, 3.0));
    let mirrored = xy(steep.reflect_point(pt(5.0, 1.0)).unwrap());
    assert!((mirrored.0 - -3.0).abs() < 1e-12 && (mirrored.1 - 5.0).abs() < 1e-12);
}

#[test]
fn reflecting_twice_restores_the_point() {
    let axis = line((0.0, 0.0), (1.0, 1.0));
    let there = axis.reflect_point(pt(3.0, -8.0)).unwrap();
    assert_eq!(xy(axis.reflect_point(there).unwrap()), (3.0, -8.0));
}

#[test]
fn a_line_passes_through_its_points() {
    let rising = line((0.0, 1.0), (1.0, 3.0));
    assert!(rising.passes_through(pt(2.0, 5.0)));
    assert!(rising.passes_through(pt(-1.0, -1.0)));
    assert!(!rising.passes_through(pt(2.0, 5.5)));
    let upright = line((2.0, -1.0), (2.0, 5.0));
    assert!(upright.passes_through(pt(2.0, 100.0)));
    assert!(!upright.passes_through(pt(2.5, 0.0)));
}

#[test]
fn foot_is_the_point_of_intersection() {
    assert_eq!(LineIntersection::Point((1, 2)).foot(), Ok((1, 2)));
}

#[test]
fn foot_fails_without_a_point() {
    assert_eq!(
        LineIntersection::<(i32, i32)>::Parallel.foot(),
        Err(DegenerateGeometryError::ParallelPerpendicular)
    );
    assert_eq!(
        LineIntersection::<(i32, i32)>::Coincident.foot(),
        Err(DegenerateGeometryError::CoincidentPerpendicular)
    );
}

#[test]
fn nearest_tells_touching_from_distant() {
    assert!(matches!(Closest::Intersection((1, 1)).nearest(), Ok(Nearest::Touching)));
    assert!(matches!(Closest::SinglePoint((4, 2)).nearest(), Ok(Nearest::At((4, 2)))));
}

#[test]
fn nearest_fails_when_undecided() {
    assert!(matches!(
        Closest::<(i32, i32)>::Indeterminate.nearest(),
        Err(DegenerateGeometryError::IndeterminateNearestPoint)
    ));
}
