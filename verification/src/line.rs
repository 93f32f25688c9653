//! Lines through two points: gradient, intercept, intersection, reflection.
//!
//! A line's orientation (vertical, horizontal or sloped) is found by exact
//! comparison before any division takes place, so that intersection and
//! reflection can treat the three orientations apart.

use vstd::prelude::*;
use crate::scalar::{
    is_count, is_difference, is_equality, is_negation, is_product, is_quotient, is_sum, is_zero,
    Point2, Scalar,
};

verus! {

/// The line through two points. The point type is opaque to the line.
#[derive(Copy, Debug)]
pub struct Line<P> {
    pub point1: P,
    pub point2: P,
}

impl<P: Copy> Clone for Line<P> {
    fn clone(&self) -> (copy: Self)
        ensures
            copy == *self,
    {
        *self
    }
}

/// How a line lies in the plane.
#[derive(Clone, Copy, Debug, PartialEq, Eq, Structural)]
pub enum Orientation {
    /// Both points share their x-coordinate.
    Vertical,
    /// Both points share their y-coordinate.
    Horizontal,
    /// Neither coordinate is shared.
    Sloped,
}

/// A computation met a case that has no result.
#[derive(Clone, Copy, Debug, PartialEq, Eq, Structural)]
pub enum DegenerateGeometryError {
    /// The two points of a line coincide.
    CoincidentPoints,
    /// A line and its perpendicular came out parallel.
    ParallelPerpendicular,
    /// A line and its perpendicular came out as one line.
    CoincidentPerpendicular,
    /// No nearest point on a boundary could be determined.
    IndeterminateNearestPoint,
}

/// The result of intersecting two lines.
#[derive(Clone, Copy, Debug)]
pub enum LineIntersection<P> {
    Point(P),
    Coincident,
    Parallel,
}

/// The case that an intersection falls under, before any point is computed.
#[derive(Clone, Copy, Debug, PartialEq, Eq, Structural)]
pub enum Crossing {
    /// The lines are one line.
    Coincident,
    /// The lines never meet.
    Parallel,
    /// The lines have different gradients and meet the y-axis at one height:
    /// they cross at that point of the y-axis.
    OnYAxis,
    /// The first line is vertical, the second is not: they cross at the first
    /// line's x, at the height of the second line there.
    OnFirstVertical,
    /// The second line is vertical, the first is not.
    OnSecondVertical,
    /// Neither line is vertical, and gradients and intercepts differ: the
    /// point solves the two line equations.
    Solved,
}

/// The nearest point of a boundary to a query point, as a search reports it.
#[derive(Clone, Copy, Debug)]
pub enum Closest<P> {
    /// The query point lies on the boundary.
    Intersection(P),
    /// One point of the boundary is nearest.
    SinglePoint(P),
    /// The search could not decide.
    Indeterminate,
}

/// What a distance is measured to.
#[derive(Clone, Copy, Debug)]
pub enum Nearest<P> {
    /// The query point is on the boundary: the distance is zero.
    Touching,
    /// The distance is that to this point.
    At(P),
}

/// The orientation of a line whose points share x, or share y, as stated.
pub open spec fn spec_orientation(same_x: bool, same_y: bool) -> Result<
    Orientation,
    DegenerateGeometryError,
> {
    if same_x && same_y {
        Err(DegenerateGeometryError::CoincidentPoints)
    } else if same_x {
        Ok(Orientation::Vertical)
    } else if same_y {
        Ok(Orientation::Horizontal)
    } else {
        Ok(Orientation::Sloped)
    }
}

/// The case of the intersection of two lines. `same_gradient` compares the
/// gradients of two lines that are not vertical. `same_offset` compares
/// their y-intercepts, or, of two vertical lines, their x-coordinates.
pub open spec fn spec_crossing(
    first: Orientation,
    second: Orientation,
    same_gradient: bool,
    same_offset: bool,
) -> Crossing {
    match (first, second) {
        (Orientation::Vertical, Orientation::Vertical) => if same_offset {
            Crossing::Coincident
        } else {
            Crossing::Parallel
        },
        (Orientation::Vertical, _) => Crossing::OnFirstVertical,
        (_, Orientation::Vertical) => Crossing::OnSecondVertical,
        _ => match (same_gradient, same_offset) {
            (true, true) => Crossing::Coincident,
            (true, false) => Crossing::Parallel,
            (false, true) => Crossing::OnYAxis,
            (false, false) => Crossing::Solved,
        },
    }
}

/// Whether a crossing is a single point.
pub open spec fn spec_is_point(crossing: Crossing) -> bool {
    crossing != Crossing::Coincident && crossing != Crossing::Parallel
}

/// The same crossing, seen from the other line.
pub open spec fn spec_swapped(crossing: Crossing) -> Crossing {
    match crossing {
        Crossing::OnFirstVertical => Crossing::OnSecondVertical,
        Crossing::OnSecondVertical => Crossing::OnFirstVertical,
        other => other,
    }
}

/// The orientation of the perpendicular to a line.
pub open spec fn spec_perpendicular(orientation: Orientation) -> Orientation {
    match orientation {
        Orientation::Vertical => Orientation::Horizontal,
        Orientation::Horizontal => Orientation::Vertical,
        Orientation::Sloped => Orientation::Sloped,
    }
}

/// Tells the three orientations apart, and refuses a line whose two points
/// coincide.
pub fn orientation(same_x: bool, same_y: bool) -> (result: Result<
    Orientation,
    DegenerateGeometryError,
>)
    ensures
        result == spec_orientation(same_x, same_y),
{
    if same_x && same_y {
        Err(DegenerateGeometryError::CoincidentPoints)
    } else if same_x {
        Ok(Orientation::Vertical)
    } else if same_y {
        Ok(Orientation::Horizontal)
    } else {
        Ok(Orientation::Sloped)
    }
}

impl Orientation {
    /// The orientation of the perpendicular.
    pub fn perpendicular(self) -> (turned: Orientation)
        ensures
            turned == spec_perpendicular(self),
    {
        match self {
            Orientation::Vertical => Orientation::Horizontal,
            Orientation::Horizontal => Orientation::Vertical,
            Orientation::Sloped => Orientation::Sloped,
        }
    }
}

/// Decides the case of an intersection from the two orientations and the two
/// exact comparisons.
pub fn crossing(first: Orientation, second: Orientation, same_gradient: bool, same_offset: bool)
    -> (case: Crossing)
    ensures
        case == spec_crossing(first, second, same_gradient, same_offset),
{
    match first {
        Orientation::Vertical => match second {
            Orientation::Vertical => if same_offset {
                Crossing::Coincident
            } else {
                Crossing::Parallel
            },
            _ => Crossing::OnFirstVertical,
        },
        _ => match second {
            Orientation::Vertical => Crossing::OnSecondVertical,
            _ => if same_gradient {
                if same_offset {
                    Crossing::Coincident
                } else {
                    Crossing::Parallel
                }
            } else if same_offset {
                Crossing::OnYAxis
            } else {
                Crossing::Solved
            },
        },
    }
}

impl Crossing {
    /// Whether the lines meet in a single point.
    pub fn is_point(self) -> (single: bool)
        ensures
            single == spec_is_point(self),
    {
        match self {
            Crossing::Coincident => false,
            Crossing::Parallel => false,
            _ => true,
        }
    }
}

/// The foot of a perpendicular: the point in which a line and its
/// perpendicular meet, or the error that any other outcome is.
pub open spec fn spec_foot<P>(crossing: LineIntersection<P>) -> Result<P, DegenerateGeometryError> {
    match crossing {
        LineIntersection::Point(p) => Ok(p),
        LineIntersection::Parallel => Err(DegenerateGeometryError::ParallelPerpendicular),
        LineIntersection::Coincident => Err(DegenerateGeometryError::CoincidentPerpendicular),
    }
}

impl<P: Copy> LineIntersection<P> {
    /// The foot of a perpendicular: the point in which a line and its
    /// perpendicular meet. Any other outcome is an error.
    pub fn foot(self) -> (result: Result<P, DegenerateGeometryError>)
        ensures
            result == spec_foot(self),
    {
        match self {
            LineIntersection::Point(p) => Ok(p),
            LineIntersection::Parallel => Err(DegenerateGeometryError::ParallelPerpendicular),
            LineIntersection::Coincident => Err(DegenerateGeometryError::CoincidentPerpendicular),
        }
    }
}

impl<P: Copy> Closest<P> {
    /// What the distance to a boundary is measured to. An undecided search
    /// is an error.
    pub fn nearest(self) -> (result: Result<Nearest<P>, DegenerateGeometryError>)
        ensures
            result == match self {
                Closest::Intersection(_) => Ok::<Nearest<P>, DegenerateGeometryError>(
                    Nearest::Touching,
                ),
                Closest::SinglePoint(p) => Ok::<Nearest<P>, DegenerateGeometryError>(
                    Nearest::At(p),
                ),
                Closest::Indeterminate => Err::<Nearest<P>, DegenerateGeometryError>(
                    DegenerateGeometryError::IndeterminateNearestPoint,
                ),
            },
    {
        match self {
            Closest::Intersection(_) => Ok(Nearest::Touching),
            Closest::SinglePoint(p) => Ok(Nearest::At(p)),
            Closest::Indeterminate => Err(DegenerateGeometryError::IndeterminateNearestPoint),
        }
    }
}

/// Swapping the two lines swaps the case for its mirror image: the lines meet
/// in a point one way round exactly if they do the other way round.
pub proof fn lemma_crossing_symmetric(
    first: Orientation,
    second: Orientation,
    same_gradient: bool,
    same_offset: bool,
)
    ensures
        spec_crossing(second, first, same_gradient, same_offset) == spec_swapped(
            spec_crossing(first, second, same_gradient, same_offset),
        ),
        spec_is_point(spec_crossing(second, first, same_gradient, same_offset)) == spec_is_point(
            spec_crossing(first, second, same_gradient, same_offset),
        ),
{
}

/// A line and its perpendicular always meet in a point when one of them is
/// vertical, and the perpendicular of the perpendicular lies as the line does.
pub proof fn lemma_perpendicular_crosses(
    orientation: Orientation,
    same_gradient: bool,
    same_offset: bool,
)
    requires
        orientation != Orientation::Sloped,
    ensures
        spec_is_point(
            spec_crossing(orientation, spec_perpendicular(orientation), same_gradient, same_offset),
        ),
        spec_perpendicular(spec_perpendicular(orientation)) == orientation,
{
}

/// `result` is the orientation of `line`, found by comparing the coordinates
/// of its two points.
pub open spec fn is_orientation<S: Scalar>(
    line: Line<Point2<S>>,
    result: Result<Orientation, DegenerateGeometryError>,
) -> bool {
    exists|same_x: bool, same_y: bool|
        #![trigger
            is_equality(line.point1.x, line.point2.x, same_x),
            is_equality(line.point1.y, line.point2.y, same_y)]
        is_equality(line.point1.x, line.point2.x, same_x) && is_equality(
            line.point1.y,
            line.point2.y,
            same_y,
        ) && result == spec_orientation(same_x, same_y)
}

/// `m` is the gradient of `line`: `(y2 - y1) / (x2 - x1)`.
pub open spec fn is_gradient<S: Scalar>(line: Line<Point2<S>>, m: S) -> bool {
    exists|rise: S, run: S|
        #![trigger
            is_difference(line.point2.y, line.point1.y, rise),
            is_difference(line.point2.x, line.point1.x, run)]
        is_difference(line.point2.y, line.point1.y, rise) && is_difference(
            line.point2.x,
            line.point1.x,
            run,
        ) && is_quotient(rise, run, m)
}

/// `y` is the height of the line with gradient `m` and y-intercept `c` at
/// `x`: `m x + c`.
pub open spec fn is_height<S: Scalar>(m: S, c: S, x: S, y: S) -> bool {
    exists|mx: S| #[trigger] is_product(m, x, mx) && is_sum(mx, c, y)
}

/// `c` is the y-intercept of `line`: `y1 - m x1`, with the line's gradient
/// for `m`.
pub open spec fn is_y_intercept<S: Scalar>(line: Line<Point2<S>>, c: S) -> bool {
    exists|m: S, mx: S|
        #![trigger is_gradient(line, m), is_product(m, line.point1.x, mx)]
        is_gradient(line, m) && is_product(m, line.point1.x, mx) && is_difference(
            line.point1.y,
            mx,
            c,
        )
}

/// `line` is the line through `point` with gradient `m`, held by `point` and
/// by the point in which it meets the y-axis; where `point` lies on the
/// y-axis itself, by `point` and the point of the line one unit to its right.
pub open spec fn is_line_through<S: Scalar>(point: Point2<S>, m: S, line: Line<Point2<S>>) -> bool {
    exists|mx: S, c: S, zero: S, on_axis: bool, one: S, beside: S|
        #![trigger
            is_product(m, point.x, mx),
            is_difference(point.y, mx, c),
            is_equality(point.x, zero, on_axis),
            is_count(1, one),
            is_sum(c, m, beside)]
        {
            &&& is_product(m, point.x, mx)
            &&& is_difference(point.y, mx, c)
            &&& is_zero(zero)
            &&& is_equality(point.x, zero, on_axis)
            &&& is_count(1, one)
            &&& is_sum(c, m, beside)
            &&& line == if on_axis {
                Line { point1: point, point2: Point2 { x: one, y: beside } }
            } else {
                Line { point1: Point2 { x: zero, y: c }, point2: point }
            }
        }
}

/// `crossing` is where a vertical line at `x` meets the line `other`: at `x`,
/// at the height of `other` there.
pub open spec fn is_crossing_on_vertical<S: Scalar>(
    x: S,
    other: Line<Point2<S>>,
    crossing: LineIntersection<Point2<S>>,
) -> bool {
    exists|m: S, c: S, y: S|
        #![trigger is_gradient(other, m), is_y_intercept(other, c), is_height(m, c, x, y)]
        is_gradient(other, m) && is_y_intercept(other, c) && is_height(m, c, x, y) && crossing
            == LineIntersection::Point(Point2 { x, y })
}

/// `crossing` is the intersection of two lines of which neither is vertical:
/// gradients and y-intercepts are compared exactly; with different gradients
/// and one y-intercept the lines cross on the y-axis, and otherwise at
/// `x = (c2 - c1) / (m1 - m2)`, `y = m1 x + c1`.
pub open spec fn is_crossing_of_graphs<S: Scalar>(
    first: Line<Point2<S>>,
    second: Line<Point2<S>>,
    one: Orientation,
    two: Orientation,
    crossing: LineIntersection<Point2<S>>,
) -> bool {
    exists|m1: S, m2: S, c1: S, c2: S, same_gradient: bool, same_offset: bool|
        #![trigger
            is_gradient(first, m1),
            is_gradient(second, m2),
            is_y_intercept(first, c1),
            is_y_intercept(second, c2),
            is_equality(m1, m2, same_gradient),
            is_equality(c1, c2, same_offset)]
        {
            &&& is_gradient(first, m1)
            &&& is_gradient(second, m2)
            &&& is_y_intercept(first, c1)
            &&& is_y_intercept(second, c2)
            &&& is_equality(m1, m2, same_gradient)
            &&& is_equality(c1, c2, same_offset)
            &&& match spec_crossing(one, two, same_gradient, same_offset) {
                Crossing::Coincident => crossing == LineIntersection::<Point2<S>>::Coincident,
                Crossing::Parallel => crossing == LineIntersection::<Point2<S>>::Parallel,
                Crossing::OnYAxis => exists|zero: S| #[trigger]
                    is_zero(zero) && crossing == LineIntersection::Point(Point2 { x: zero, y: c1 }),
                _ => is_solution(m1, m2, c1, c2, crossing),
            }
        }
}

/// `crossing` is the point `x = (c2 - c1) / (m1 - m2)`, `y = m1 x + c1`.
pub open spec fn is_solution<S: Scalar>(
    m1: S,
    m2: S,
    c1: S,
    c2: S,
    crossing: LineIntersection<Point2<S>>,
) -> bool {
    exists|offsets: S, gradients: S, x: S, y: S|
        #![trigger
            is_difference(c2, c1, offsets),
            is_difference(m1, m2, gradients),
            is_quotient(offsets, gradients, x),
            is_height(m1, c1, x, y)]
        is_difference(c2, c1, offsets) && is_difference(m1, m2, gradients) && is_quotient(
            offsets,
            gradients,
            x,
        ) && is_height(m1, c1, x, y) && crossing == LineIntersection::Point(Point2 { x, y })
}

/// `crossing` is the intersection of two lines with the given orientations.
pub open spec fn is_crossing<S: Scalar>(
    first: Line<Point2<S>>,
    second: Line<Point2<S>>,
    one: Orientation,
    two: Orientation,
    crossing: LineIntersection<Point2<S>>,
) -> bool {
    match (one, two) {
        (Orientation::Vertical, Orientation::Vertical) => exists|same_offset: bool| #[trigger]
            is_equality(first.point1.x, second.point1.x, same_offset) && crossing == if same_offset {
                LineIntersection::<Point2<S>>::Coincident
            } else {
                LineIntersection::<Point2<S>>::Parallel
            },
        (Orientation::Vertical, _) => is_crossing_on_vertical(first.point1.x, second, crossing),
        (_, Orientation::Vertical) => is_crossing_on_vertical(second.point1.x, first, crossing),
        _ => is_crossing_of_graphs(first, second, one, two, crossing),
    }
}

/// `result` is the intersection of two lines, or the error that a line
/// without two different points is.
pub open spec fn is_intersection<S: Scalar>(
    first: Line<Point2<S>>,
    second: Line<Point2<S>>,
    result: Result<LineIntersection<Point2<S>>, DegenerateGeometryError>,
) -> bool {
    exists|one: Result<Orientation, DegenerateGeometryError>, two: Result<
        Orientation,
        DegenerateGeometryError,
    >|
        #![trigger is_orientation(first, one), is_orientation(second, two)]
        is_orientation(first, one) && is_orientation(second, two) && match (one, two) {
            (Err(error), _) => result == Err::<LineIntersection<Point2<S>>, DegenerateGeometryError>(
                error,
            ),
            (Ok(_), Err(error)) => result == Err::<
                LineIntersection<Point2<S>>,
                DegenerateGeometryError,
            >(error),
            (Ok(o1), Ok(o2)) => result is Ok && is_crossing(first, second, o1, o2, result->Ok_0),
        }
}

/// `r` is `p` moved by twice its offset to `foot`.
pub open spec fn is_mirrored<S: Scalar>(p: Point2<S>, foot: Point2<S>, r: Point2<S>) -> bool {
    exists|two: S, dx: S, dy: S, twice_dx: S, twice_dy: S|
        #![trigger
            is_count(2, two),
            is_difference(foot.x, p.x, dx),
            is_difference(foot.y, p.y, dy),
            is_product(two, dx, twice_dx),
            is_product(two, dy, twice_dy)]
        {
            &&& is_count(2, two)
            &&& is_difference(foot.x, p.x, dx)
            &&& is_difference(foot.y, p.y, dy)
            &&& is_product(two, dx, twice_dx)
            &&& is_product(two, dy, twice_dy)
            &&& is_sum(p.x, twice_dx, r.x)
            &&& is_sum(p.y, twice_dy, r.y)
        }
}

/// `perpendicular` is the line through `p` whose gradient is minus one over
/// the gradient of `line`.
pub open spec fn is_perpendicular_through<S: Scalar>(
    line: Line<Point2<S>>,
    p: Point2<S>,
    perpendicular: Line<Point2<S>>,
) -> bool {
    exists|m: S, one: S, minus_one: S, across: S|
        #![trigger
            is_gradient(line, m),
            is_count(1, one),
            is_negation(one, minus_one),
            is_quotient(minus_one, m, across)]
        is_gradient(line, m) && is_count(1, one) && is_negation(one, minus_one) && is_quotient(
            minus_one,
            m,
            across,
        ) && is_line_through(p, across, perpendicular)
}

/// `result` is the foot of the perpendicular from `p` on `line`: on a
/// vertical or horizontal line the point of the line beside or above `p`, on
/// a sloped line the point in which the perpendicular through `p` meets it.
pub open spec fn is_foot<S: Scalar>(
    line: Line<Point2<S>>,
    p: Point2<S>,
    orientation: Orientation,
    result: Result<Point2<S>, DegenerateGeometryError>,
) -> bool {
    match orientation {
        Orientation::Vertical => result == Ok::<Point2<S>, DegenerateGeometryError>(
            Point2 { x: line.point1.x, y: p.y },
        ),
        Orientation::Horizontal => result == Ok::<Point2<S>, DegenerateGeometryError>(
            Point2 { x: p.x, y: line.point1.y },
        ),
        Orientation::Sloped => exists|perpendicular: Line<Point2<S>>, crossing: Result<
            LineIntersection<Point2<S>>,
            DegenerateGeometryError,
        >|
            #![trigger
                is_perpendicular_through(line, p, perpendicular),
                is_intersection(line, perpendicular, crossing)]
            is_perpendicular_through(line, p, perpendicular) && is_intersection(
                line,
                perpendicular,
                crossing,
            ) && result == match crossing {
                Ok(met) => spec_foot(met),
                Err(error) => Err(error),
            },
    }
}

/// `result` is the mirror image of `p` in `line`, or the error that stood in
/// the way.
pub open spec fn is_reflection<S: Scalar>(
    line: Line<Point2<S>>,
    p: Point2<S>,
    result: Result<Point2<S>, DegenerateGeometryError>,
) -> bool {
    exists|orientation: Result<Orientation, DegenerateGeometryError>|
        #![trigger is_orientation(line, orientation)]
        is_orientation(line, orientation) && match orientation {
            Err(error) => result == Err::<Point2<S>, DegenerateGeometryError>(error),
            Ok(lying) => exists|foot: Result<Point2<S>, DegenerateGeometryError>|
                #![trigger is_foot(line, p, lying, foot)]
                is_foot(line, p, lying, foot) && match foot {
                    Err(error) => result == Err::<Point2<S>, DegenerateGeometryError>(error),
                    Ok(at) => result is Ok && is_mirrored(p, at, result->Ok_0),
                },
        }
}

/// `touches` says whether `p` was found on `line`: on a vertical line by its
/// x-coordinate, on any other by the line's equation `y = m x + c`, both
/// compared exactly. A line without two different points touches nothing.
pub open spec fn is_incidence<S: Scalar>(line: Line<Point2<S>>, p: Point2<S>, touches: bool)
    -> bool {
    exists|orientation: Result<Orientation, DegenerateGeometryError>|
        #![trigger is_orientation(line, orientation)]
        is_orientation(line, orientation) && match orientation {
            Err(_) => !touches,
            Ok(Orientation::Vertical) => is_equality(p.x, line.point1.x, touches),
            Ok(_) => exists|m: S, c: S, y: S|
                #![trigger is_gradient(line, m), is_y_intercept(line, c), is_height(m, c, p.x, y)]
                is_gradient(line, m) && is_y_intercept(line, c) && is_height(m, c, p.x, y)
                    && is_equality(p.y, y, touches),
        }
}

/// The height `m x + c`.
fn height<S: Scalar>(m: S, c: S, x: S) -> (y: S)
    ensures
        is_height(m, c, x, y),
{
    let mx: S = m.times(x);
    assert(is_product(m, x, mx));
    mx.plus(c)
}

impl<S: Scalar> Line<Point2<S>> {
    /// The line through `point` with gradient `m`.
    pub fn from_point_gradient(point: Point2<S>, m: S) -> (line: Self)
        ensures
            is_line_through(point, m, line),
    {
        // y - y1 = m * (x - x1)
        // c - y1 = m * (0 - x1)
        let mx: S = m.times(point.x);
        let c: S = point.y.minus(mx);
        let zero: S = S::zero();
        let on_axis: bool = point.x.equals(zero);
        let one: S = S::from_count(1);
        let beside: S = c.plus(m);
        assert(is_product(m, point.x, mx) && is_difference(point.y, mx, c) && is_equality(
            point.x,
            zero,
            on_axis,
        ) && is_count(1, one) && is_sum(c, m, beside));
        if on_axis {
            Line { point1: point, point2: Point2 { x: one, y: beside } }
        } else {
            Line { point1: Point2 { x: zero, y: c }, point2: point }
        }
    }

    /// How the line lies: vertical, horizontal or sloped. Two points that
    /// coincide make no line.
    pub fn orientation(&self) -> (result: Result<Orientation, DegenerateGeometryError>)
        ensures
            is_orientation(*self, result),
    {
        let same_x: bool = self.point1.x.equals(self.point2.x);
        let same_y: bool = self.point1.y.equals(self.point2.y);
        assert(is_equality(self.point1.x, self.point2.x, same_x) && is_equality(
            self.point1.y,
            self.point2.y,
            same_y,
        ));
        orientation(same_x, same_y)
    }

    /// The gradient, by plain division: whatever the number type makes of a
    /// division by zero is the gradient of a vertical line.
    pub fn gradient(&self) -> (m: S)
        ensures
            is_gradient(*self, m),
    {
        // m = (y2 - y1) / (x2 - x1)
        let rise: S = self.point2.y.minus(self.point1.y);
        let run: S = self.point2.x.minus(self.point1.x);
        assert(is_difference(self.point2.y, self.point1.y, rise) && is_difference(
            self.point2.x,
            self.point1.x,
            run,
        ));
        rise.over(run)
    }

    /// The height at which the line meets the y-axis.
    pub fn y_intercept(&self) -> (c: S)
        ensures
            is_y_intercept(*self, c),
    {
        // y = mx + c, c = y - mx
        let m: S = self.gradient();
        let mx: S = m.times(self.point1.x);
        assert(is_gradient(*self, m) && is_product(m, self.point1.x, mx));
        self.point1.y.minus(mx)
    }

    /// Where a vertical line at `x` meets this line.
    fn crossing_on_vertical(&self, x: S) -> (met: LineIntersection<Point2<S>>)
        ensures
            is_crossing_on_vertical(x, *self, met),
    {
        let m: S = self.gradient();
        let c: S = self.y_intercept();
        let y: S = height(m, c, x);
        assert(is_gradient(*self, m) && is_y_intercept(*self, c) && is_height(m, c, x, y));
        LineIntersection::Point(Point2 { x, y })
    }

    /// Where this line meets another, neither of them vertical.
    fn crossing_of_graphs(&self, other: &Self, one: Orientation, two: Orientation) -> (met:
        LineIntersection<Point2<S>>)
        requires
            one != Orientation::Vertical,
            two != Orientation::Vertical,
        ensures
            is_crossing_of_graphs(*self, *other, one, two, met),
    {
        let m1: S = self.gradient();
        let m2: S = other.gradient();
        let c1: S = self.y_intercept();
        let c2: S = other.y_intercept();
        let same_gradient: bool = m1.equals(m2);
        let same_offset: bool = c1.equals(c2);
        assert(is_gradient(*self, m1) && is_gradient(*other, m2) && is_y_intercept(*self, c1)
            && is_y_intercept(*other, c2) && is_equality(m1, m2, same_gradient) && is_equality(
            c1,
            c2,
            same_offset,
        ));
        match crossing(one, two, same_gradient, same_offset) {
            Crossing::Coincident => LineIntersection::Coincident,
            Crossing::Parallel => LineIntersection::Parallel,
            Crossing::OnYAxis => {
                let zero: S = S::zero();
                assert(is_zero(zero));
                LineIntersection::Point(Point2 { x: zero, y: c1 })
            },
            _ => {
                // Find intersection
                let offsets: S = c2.minus(c1);
                let gradients: S = m1.minus(m2);
                let x: S = offsets.over(gradients);
                let y: S = height(m1, c1, x);
                assert(is_difference(c2, c1, offsets) && is_difference(m1, m2, gradients)
                    && is_quotient(offsets, gradients, x) && is_height(m1, c1, x, y));
                let met = LineIntersection::Point(Point2 { x, y });
                assert(is_solution(m1, m2, c1, c2, met));
                met
            },
        }
    }

    /// The intersection of this line with another: a point, or the finding
    /// that they are parallel or one line.
    pub fn intersect(&self, other: Self) -> (result: Result<
        LineIntersection<Point2<S>>,
        DegenerateGeometryError,
    >)
        ensures
            is_intersection(*self, other, result),
    {
        let one = self.orientation();
        let two = other.orientation();
        assert(is_orientation(*self, one) && is_orientation(other, two));
        let first: Orientation = match one {
            Ok(lying) => lying,
            Err(error) => {
                return Err(error);
            },
        };
        let second: Orientation = match two {
            Ok(lying) => lying,
            Err(error) => {
                return Err(error);
            },
        };
        let met: LineIntersection<Point2<S>> = match first {
            Orientation::Vertical => match second {
                Orientation::Vertical => {
                    let same_offset: bool = self.point1.x.equals(other.point1.x);
                    assert(is_equality(self.point1.x, other.point1.x, same_offset));
                    if same_offset {
                        LineIntersection::Coincident
                    } else {
                        LineIntersection::Parallel
                    }
                },
                _ => other.crossing_on_vertical(self.point1.x),
            },
            _ => match second {
                Orientation::Vertical => self.crossing_on_vertical(other.point1.x),
                _ => self.crossing_of_graphs(&other, first, second),
            },
        };
        assert(is_crossing(*self, other, first, second, met));
        Ok(met)
    }

    /// The foot of the perpendicular from `point` on this line.
    fn foot_of(&self, point: Point2<S>, lying: Orientation) -> (result: Result<
        Point2<S>,
        DegenerateGeometryError,
    >)
        ensures
            is_foot(*self, point, lying, result),
    {
        match lying {
            Orientation::Vertical => Ok(Point2 { x: self.point1.x, y: point.y }),
            Orientation::Horizontal => Ok(Point2 { x: point.x, y: self.point1.y }),
            Orientation::Sloped => {
                let m: S = self.gradient();
                let one: S = S::from_count(1);
                let minus_one: S = one.negated();
                let across: S = minus_one.over(m);
                let perpendicular: Self = Line::from_point_gradient(point, across);
                assert(is_gradient(*self, m) && is_count(1, one) && is_negation(one, minus_one)
                    && is_quotient(minus_one, m, across));
                assert(is_perpendicular_through(*self, point, perpendicular));
                let crossing = self.intersect(perpendicular);
                assert(is_intersection(*self, perpendicular, crossing));
                match crossing {
                    Ok(met) => met.foot(),
                    Err(error) => Err(error),
                }
            },
        }
    }

    /// The mirror image of `point` in this line: the point as far beyond the
    /// foot of its perpendicular as `point` is before it.
    pub fn reflect_point(&self, point: Point2<S>) -> (result: Result<
        Point2<S>,
        DegenerateGeometryError,
    >)
        ensures
            is_reflection(*self, point, result),
    {
        let orientation = self.orientation();
        assert(is_orientation(*self, orientation));
        let lying: Orientation = match orientation {
            Ok(lying) => lying,
            Err(error) => {
                return Err(error);
            },
        };
        let foot = self.foot_of(point, lying);
        assert(is_foot(*self, point, lying, foot));
        let at: Point2<S> = match foot {
            Ok(at) => at,
            Err(error) => {
                return Err(error);
            },
        };
        let two: S = S::from_count(2);
        let dx: S = at.x.minus(point.x);
        let dy: S = at.y.minus(point.y);
        let twice_dx: S = two.times(dx);
        let twice_dy: S = two.times(dy);
        let mirrored = Point2 { x: point.x.plus(twice_dx), y: point.y.plus(twice_dy) };
        assert(is_count(2, two) && is_difference(at.x, point.x, dx) && is_difference(
            at.y,
            point.y,
            dy,
        ) && is_product(two, dx, twice_dx) && is_product(two, dy, twice_dy));
        assert(is_mirrored(point, at, mirrored));
        Ok(mirrored)
    }

    /// Whether `point` lies on the line, by exact comparison.
    pub fn passes_through(&self, point: Point2<S>) -> (touches: bool)
        ensures
            is_incidence(*self, point, touches),
    {
        let orientation = self.orientation();
        assert(is_orientation(*self, orientation));
        match orientation {
            Err(_) => false,
            Ok(Orientation::Vertical) => point.x.equals(self.point1.x),
            Ok(_) => {
                let m: S = self.gradient();
                let c: S = self.y_intercept();
                let y: S = height(m, c, point.x);
                assert(is_gradient(*self, m) && is_y_intercept(*self, c) && is_height(
                    m,
                    c,
                    point.x,
                    y,
                ));
                point.y.equals(y)
            },
        }
    }
}

} // verus!
