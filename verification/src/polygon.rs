//! Polygons: ordered rings of vertices.
//!
//! A ring of any kind of vertex can be built, read and walked around. A ring
//! of points over a number type can also be constructed as a regular
//! polygon, moved, turned, stretched, mirrored, aligned to another polygon
//! and measured against a point.

use vstd::prelude::*;
use crate::angle::{is_rotated, rotate_point};
use crate::line::{
    is_incidence, is_reflection, Closest, DegenerateGeometryError, Line, Nearest,
};
use crate::ring::{next_index, spec_next_index};
use crate::scalar::{
    greater, is_cosine, is_count, is_difference, is_distance, is_greater, is_lesser, is_point_sum,
    is_product, is_quotient, is_radians, is_sine, is_sum, is_zero, lesser, Point2, Scalar, Vec2,
};

verus! {

/// An ordered ring of vertices. The vertex type is opaque to the ring: it is
/// stored, copied and handed back, never inspected.
pub struct Polygon<P> {
    pub points: Vec<P>,
}

/// A polygon without vertices was handed to an operation that needs one.
#[derive(Clone, Copy, Debug, PartialEq, Eq, Structural)]
pub struct NoVertices;

/// The side of another polygon's bounding box that a polygon is moved to.
#[derive(Clone, Copy, Debug, PartialEq, Eq, PartialOrd, Ord, Hash, Structural)]
pub enum Direction {
    Above,
    Right,
    Below,
    Left,
}

/// How far a polygon moves along one axis when it is aligned to another.
/// "Start" and "end" are the lower and the upper bound of a bounding box on
/// that axis.
#[derive(Clone, Copy, Debug, PartialEq, Eq, Structural)]
pub enum Shift {
    /// From the middle of the moving box to the middle of the other box.
    CentreToCentre,
    /// From the start of the moving box to the end of the other box.
    StartToEnd,
    /// From the end of the moving box to the start of the other box.
    EndToStart,
}

/// The translation that aligns one polygon to another, axis by axis.
#[derive(Clone, Copy, Debug, PartialEq, Eq, Structural)]
pub struct Alignment {
    pub x: Shift,
    pub y: Shift,
}

/// The alignment that puts a polygon on the `direction` side of another.
pub open spec fn spec_alignment(direction: Direction) -> Alignment {
    match direction {
        Direction::Above => Alignment { x: Shift::CentreToCentre, y: Shift::StartToEnd },
        Direction::Right => Alignment { x: Shift::StartToEnd, y: Shift::CentreToCentre },
        Direction::Below => Alignment { x: Shift::CentreToCentre, y: Shift::EndToStart },
        Direction::Left => Alignment { x: Shift::EndToStart, y: Shift::CentreToCentre },
    }
}

/// The direction that faces `direction`.
pub open spec fn spec_opposite(direction: Direction) -> Direction {
    match direction {
        Direction::Above => Direction::Below,
        Direction::Right => Direction::Left,
        Direction::Below => Direction::Above,
        Direction::Left => Direction::Right,
    }
}

/// The shift that undoes the touching part of `shift`.
pub open spec fn spec_mirrored(shift: Shift) -> Shift {
    match shift {
        Shift::CentreToCentre => Shift::CentreToCentre,
        Shift::StartToEnd => Shift::EndToStart,
        Shift::EndToStart => Shift::StartToEnd,
    }
}

impl Direction {
    /// The alignment that puts a polygon on this side of another.
    pub fn alignment(self) -> (alignment: Alignment)
        ensures
            alignment == spec_alignment(self),
    {
        match self {
            Direction::Above => Alignment { x: Shift::CentreToCentre, y: Shift::StartToEnd },
            Direction::Right => Alignment { x: Shift::StartToEnd, y: Shift::CentreToCentre },
            Direction::Below => Alignment { x: Shift::CentreToCentre, y: Shift::EndToStart },
            Direction::Left => Alignment { x: Shift::EndToStart, y: Shift::CentreToCentre },
        }
    }

    /// The direction that faces this one.
    pub fn opposite(self) -> (facing: Direction)
        ensures
            facing == spec_opposite(self),
    {
        match self {
            Direction::Above => Direction::Below,
            Direction::Right => Direction::Left,
            Direction::Below => Direction::Above,
            Direction::Left => Direction::Right,
        }
    }
}

/// Every alignment centres the boxes on one axis and makes them touch on the
/// other; facing directions centre on the same axis and touch on opposite
/// sides.
pub proof fn lemma_alignment_shape(direction: Direction)
    ensures
        (spec_alignment(direction).x == Shift::CentreToCentre) != (spec_alignment(direction).y
            == Shift::CentreToCentre),
        spec_alignment(spec_opposite(direction)).x == spec_mirrored(spec_alignment(direction).x),
        spec_alignment(spec_opposite(direction)).y == spec_mirrored(spec_alignment(direction).y),
        spec_opposite(spec_opposite(direction)) == direction,
{
}

/// The angle of vertex `side` of a regular polygon with `sides` vertices, as a
/// multiple of the `sides`-th part of a half turn: one, plus one more if
/// `sides` is odd, plus two for every vertex that comes before.
pub open spec fn spec_vertex_angle_multiple(sides: int, side: int) -> int {
    1 + sides % 2 + 2 * side
}

/// The angle of vertex `side` of a regular polygon with `sides` vertices, as a
/// multiple of the `sides`-th part of a half turn.
pub fn vertex_angle_multiple(sides: usize, side: usize) -> (multiple: u128)
    ensures
        multiple == spec_vertex_angle_multiple(sides as int, side as int),
{
    let parity: u128 = if sides % 2 == 1 {
        1
    } else {
        0
    };
    1 + parity + 2 * (side as u128)
}

/// Two different vertices of a regular polygon stand at angles that differ by
/// less than a full turn, so they stand at different places on the circle.
pub proof fn lemma_vertex_angles_distinct(sides: int, first: int, second: int)
    requires
        0 <= first < sides,
        0 <= second < sides,
        first != second,
    ensures
        spec_vertex_angle_multiple(sides, first) != spec_vertex_angle_multiple(sides, second),
        -2 * sides < spec_vertex_angle_multiple(sides, first) - spec_vertex_angle_multiple(
            sides,
            second,
        ) < 2 * sides,
{
}

/// From one vertex of a regular polygon to the next the angle grows by the
/// `sides`-th part of a full turn.
pub proof fn lemma_vertex_angles_evenly_spaced(sides: int, side: int)
    ensures
        spec_vertex_angle_multiple(sides, side + 1) == spec_vertex_angle_multiple(sides, side)
            + 2,
{
}

impl<P: Copy> Polygon<P> {
    /// The vertices in winding order.
    pub open spec fn view(&self) -> Seq<P> {
        self.points@
    }

    /// Edge `index` of the closed boundary: from vertex `index` to the vertex
    /// that follows it on the ring.
    pub open spec fn spec_edge(&self, index: int) -> Line<P> {
        Line {
            point1: self@[index],
            point2: self@[spec_next_index(index, self@.len() as int)],
        }
    }

    /// Wraps a list of vertices, keeping their order.
    pub fn from_points(points: Vec<P>) -> (polygon: Self)
        ensures
            polygon@ == points@,
    {
        Polygon { points }
    }

    /// A polygon with the same vertices.
    pub fn copy(&self) -> (polygon: Self)
        ensures
            polygon@ == self@,
    {
        let mut points: Vec<P> = Vec::new();
        let mut index: usize = 0;
        while index < self.points.len()
            invariant
                index <= self@.len(),
                points@ == self@.take(index as int),
            decreases self@.len() - index,
        {
            points.push(self.points[index]);
            assert(self@.take(index + 1) =~= self@.take(index as int).push(self@[index as int]));
            index = index + 1;
        }
        assert(self@.take(self@.len() as int) =~= self@);
        Polygon { points }
    }

    /// The number of vertices.
    pub fn len(&self) -> (count: usize)
        ensures
            count == self@.len(),
    {
        self.points.len()
    }

    /// The vertex at `index`.
    pub fn vertex(&self, index: usize) -> (point: P)
        requires
            index < self@.len(),
        ensures
            point == self@[index as int],
    {
        self.points[index]
    }

    /// The index that follows `index` on the ring.
    pub fn index_after(&self, index: usize) -> (next: usize)
        requires
            index < self@.len(),
        ensures
            next == spec_next_index(index as int, self@.len() as int),
            next < self@.len(),
    {
        next_index(index, self.points.len())
    }

    /// Edge `index` of the closed boundary, the last edge leading back to the
    /// first vertex.
    pub fn edge(&self, index: usize) -> (edge: Line<P>)
        requires
            index < self@.len(),
        ensures
            edge == self.spec_edge(index as int),
    {
        let after: usize = next_index(index, self.points.len());
        Line { point1: self.points[index], point2: self.points[after] }
    }
}

/// A stretch of one axis, from its lower to its upper bound.
#[derive(Copy, Debug)]
pub struct Range<S> {
    pub start: S,
    pub end: S,
}

impl<S: Copy> Clone for Range<S> {
    fn clone(&self) -> (copy: Self)
        ensures
            copy == *self,
    {
        *self
    }
}

/// A rectangle with sides along the axes.
#[derive(Copy, Debug)]
pub struct Rect<S> {
    pub x: Range<S>,
    pub y: Range<S>,
}

impl<S: Copy> Clone for Rect<S> {
    fn clone(&self) -> (copy: Self)
        ensures
            copy == *self,
    {
        *self
    }
}

/// Why a distance to a polygon could not be measured.
#[derive(Clone, Copy, Debug, PartialEq, Eq, Structural)]
pub enum DistanceError {
    /// The polygon has no vertices.
    NoVertices,
    /// The search for the nearest point of the boundary came to no result.
    IndeterminateNearestPoint,
}

impl<S: Scalar> Range<S> {
    /// The extent of the range: its upper bound less its lower bound.
    pub fn len(&self) -> (extent: S)
        ensures
            is_difference(self.end, self.start, extent),
    {
        self.end.minus(self.start)
    }
}

impl<S: Scalar> Rect<S> {
    /// The width of the rectangle.
    pub fn w(&self) -> (width: S)
        ensures
            is_difference(self.x.end, self.x.start, width),
    {
        self.x.len()
    }

    /// The height of the rectangle.
    pub fn h(&self) -> (height: S)
        ensures
            is_difference(self.y.end, self.y.start, height),
    {
        self.y.len()
    }
}

/// `after` is `before` stretched to hold `value`: its lower bound gives way
/// to a lesser value, its upper bound to a greater one.
pub open spec fn is_stretched<S: Scalar>(before: Range<S>, value: S, after: Range<S>) -> bool {
    is_lesser(value, before.start, after.start) && is_greater(value, before.end, after.end)
}

/// `boxes` holds, for every point, the bounding box of the points up to it:
/// the box of the first point alone, then each box stretched to hold the
/// next point.
pub open spec fn is_running_box<S: Scalar>(points: Seq<Point2<S>>, boxes: Seq<Rect<S>>) -> bool {
    &&& boxes.len() == points.len()
    &&& points.len() > 0
    &&& boxes[0] == (Rect {
        x: Range { start: points[0].x, end: points[0].x },
        y: Range { start: points[0].y, end: points[0].y },
    })
    &&& forall|i: int|
        1 <= i < points.len() ==> is_stretched(boxes[i - 1].x, points[i].x, (#[trigger] boxes[i]).x)
            && is_stretched(boxes[i - 1].y, points[i].y, boxes[i].y)
}

/// `bounds` is the bounding box of `points`: the box of the first point
/// alone, stretched to hold each further point in turn.
pub open spec fn is_bounding_box<S: Scalar>(points: Seq<Point2<S>>, bounds: Rect<S>) -> bool {
    exists|boxes: Seq<Rect<S>>| #[trigger] is_running_box(points, boxes) && bounds == boxes.last()
}

/// `totals` holds, for every point, the sum of the points up to it, added up
/// in their order.
pub open spec fn is_running_total<S: Scalar>(points: Seq<Point2<S>>, totals: Seq<Point2<S>>)
    -> bool {
    &&& totals.len() == points.len()
    &&& points.len() > 0
    &&& totals[0] == points[0]
    &&& forall|i: int|
        1 <= i < points.len() ==> is_point_sum(totals[i - 1], points[i], #[trigger] totals[i])
}

/// `total` is the sum of `points`, added up in their order.
pub open spec fn is_total<S: Scalar>(points: Seq<Point2<S>>, total: Point2<S>) -> bool {
    exists|totals: Seq<Point2<S>>| #[trigger]
        is_running_total(points, totals) && total == totals.last()
}

/// `centre` is the mean of `points`: their sum, divided by their number.
pub open spec fn is_centroid<S: Scalar>(points: Seq<Point2<S>>, centre: Point2<S>) -> bool {
    exists|total: Point2<S>, number: S|
        #![trigger is_total(points, total), is_count(points.len() as u128, number)]
        is_total(points, total) && is_count(points.len() as u128, number)
            && is_quotient(total.x, number, centre.x) && is_quotient(total.y, number, centre.y)
}

/// `by` is how far a range moves under a rule of alignment to `other`.
pub open spec fn is_shift<S: Scalar>(rule: Shift, moving: Range<S>, other: Range<S>, by: S) -> bool {
    match rule {
        Shift::CentreToCentre => exists|
            two: S, other_sum: S, other_middle: S, moving_sum: S, moving_middle: S
        |
            #![trigger
                is_count(2, two),
                is_sum(other.start, other.end, other_sum),
                is_quotient(other_sum, two, other_middle),
                is_sum(moving.start, moving.end, moving_sum),
                is_quotient(moving_sum, two, moving_middle)]
            {
                &&& is_count(2, two)
                &&& is_sum(other.start, other.end, other_sum)
                &&& is_quotient(other_sum, two, other_middle)
                &&& is_sum(moving.start, moving.end, moving_sum)
                &&& is_quotient(moving_sum, two, moving_middle)
                &&& is_difference(other_middle, moving_middle, by)
            },
        Shift::StartToEnd => is_difference(other.end, moving.start, by),
        Shift::EndToStart => is_difference(other.start, moving.end, by),
    }
}

/// `after` is `before` with every vertex moved by `translation`.
pub open spec fn is_translated<S: Scalar>(
    before: Seq<Point2<S>>,
    translation: Vec2<S>,
    after: Seq<Point2<S>>,
) -> bool {
    &&& after.len() == before.len()
    &&& forall|i: int|
        0 <= i < before.len() ==> is_point_sum(before[i], translation, #[trigger] after[i])
}

/// `after` is `before` with every vertex turned about `centre` by the angle
/// with the given sine and cosine.
pub open spec fn is_turned<S: Scalar>(
    before: Seq<Point2<S>>,
    centre: Point2<S>,
    sin: S,
    cos: S,
    after: Seq<Point2<S>>,
) -> bool {
    &&& after.len() == before.len()
    &&& forall|i: int|
        0 <= i < before.len() ==> is_rotated(before[i], centre, sin, cos, #[trigger] after[i])
}

/// `after` is `before` turned about `centre` by `angle`, in radians.
pub open spec fn is_turned_by<S: Scalar>(
    before: Seq<Point2<S>>,
    centre: Point2<S>,
    angle: S,
    after: Seq<Point2<S>>,
) -> bool {
    exists|sin: S, cos: S|
        #![trigger is_sine(angle, sin), is_cosine(angle, cos)]
        is_sine(angle, sin) && is_cosine(angle, cos) && is_turned(before, centre, sin, cos, after)
}

/// `q` is `p` with its offset from `centre` stretched by `scale`.
pub open spec fn is_dilated_point<S: Scalar>(p: Point2<S>, scale: S, centre: Point2<S>, q: Point2<S>)
    -> bool {
    exists|dx: S, dy: S, sx: S, sy: S|
        #![trigger
            is_difference(p.x, centre.x, dx),
            is_difference(p.y, centre.y, dy),
            is_product(dx, scale, sx),
            is_product(dy, scale, sy)]
        {
            &&& is_difference(p.x, centre.x, dx)
            &&& is_difference(p.y, centre.y, dy)
            &&& is_product(dx, scale, sx)
            &&& is_product(dy, scale, sy)
            &&& is_sum(sx, centre.x, q.x)
            &&& is_sum(sy, centre.y, q.y)
        }
}

/// `after` is `before` with every vertex's offset from `centre` stretched by
/// `scale`.
pub open spec fn is_dilated<S: Scalar>(
    before: Seq<Point2<S>>,
    scale: S,
    centre: Point2<S>,
    after: Seq<Point2<S>>,
) -> bool {
    &&& after.len() == before.len()
    &&& forall|i: int|
        0 <= i < before.len() ==> is_dilated_point(before[i], scale, centre, #[trigger] after[i])
}

/// `p` is vertex `side` of the regular polygon with `sides` vertices on the
/// circle of the given radius about the origin. The vertex stands at the
/// angle of `180 / sides` degrees times its angle multiple, measured from the
/// y-axis towards the x-axis: at `(sin, cos)` of that angle, times the
/// radius.
pub open spec fn is_regular_vertex<S: Scalar>(radius: S, sides: usize, side: int, p: Point2<S>)
    -> bool {
    exists|half_turn: S, number: S, part: S, multiple: S, degrees: S, angle: S, sin: S, cos: S|
        #![trigger
            is_count(180, half_turn),
            is_count(sides as u128, number),
            is_quotient(half_turn, number, part),
            is_count(spec_vertex_angle_multiple(sides as int, side) as u128, multiple),
            is_product(part, multiple, degrees),
            is_radians(degrees, angle),
            is_sine(angle, sin),
            is_cosine(angle, cos)]
        {
            &&& is_count(180, half_turn)
            &&& is_count(sides as u128, number)
            &&& is_quotient(half_turn, number, part)
            &&& is_count(spec_vertex_angle_multiple(sides as int, side) as u128, multiple)
            &&& is_product(part, multiple, degrees)
            &&& is_radians(degrees, angle)
            &&& is_sine(angle, sin)
            &&& is_cosine(angle, cos)
            &&& is_product(sin, radius, p.x)
            &&& is_product(cos, radius, p.y)
        }
}

impl<S: Scalar> Polygon<Point2<S>> {
    /// The regular polygon with `sides` vertices on the circle of the given
    /// radius about the origin. With an odd number of sides its bottom edge
    /// is flat.
    pub fn new(radius: S, sides: usize) -> (polygon: Self)
        ensures
            polygon@.len() == sides,
            forall|k: int| 0 <= k < sides ==> is_regular_vertex(radius, sides, k, #[trigger] polygon@[k]),
    {
        let mut points: Vec<Point2<S>> = Vec::new();
        let mut side: usize = 0;
        while side < sides
            invariant
                side <= sides,
                points@.len() == side,
                forall|k: int| 0 <= k < side ==> is_regular_vertex(radius, sides, k, #[trigger] points@[k]),
            decreases sides - side,
        {
            let half_turn: S = S::from_count(180);
            let number: S = S::from_count(sides as u128);
            let part: S = half_turn.over(number);
            let multiple: S = S::from_count(vertex_angle_multiple(sides, side));
            let degrees: S = part.times(multiple);
            let angle: S = degrees.radians();
            // Get the sine of the radian to find the x co-ordinate of this point of the circle
            // and multiply it by the radius.
            let sin: S = angle.sine();
            // Do the same with cosine to find the y co-ordinate.
            let cos: S = angle.cosine();
            let point = Point2 { x: sin.times(radius), y: cos.times(radius) };
            assert(is_count(180, half_turn) && is_count(sides as u128, number) && is_quotient(
                half_turn,
                number,
                part,
            ) && is_count(spec_vertex_angle_multiple(sides as int, side as int) as u128, multiple)
                && is_product(part, multiple, degrees) && is_radians(degrees, angle) && is_sine(
                angle,
                sin,
            ) && is_cosine(angle, cos));
            assert(is_regular_vertex(radius, sides, side as int, point));
            points.push(point);
            side = side + 1;
        }
        Polygon { points }
    }

    /// The bounding box of the vertices.
    pub fn bounding_box(&self) -> (result: Result<Rect<S>, NoVertices>)
        ensures
            match result {
                Ok(bounds) => self@.len() > 0 && is_bounding_box(self@, bounds),
                Err(_) => self@.len() == 0,
            },
    {
        if self.points.len() == 0 {
            return Err(NoVertices);
        }
        let first: Point2<S> = self.points[0];
        let mut bounds = Rect {
            x: Range { start: first.x, end: first.x },
            y: Range { start: first.y, end: first.y },
        };
        let ghost mut boxes: Seq<Rect<S>> = seq![bounds];
        let mut index: usize = 1;
        while index < self.points.len()
            invariant
                1 <= index <= self@.len(),
                is_running_box(self@.take(index as int), boxes),
                bounds == boxes.last(),
            decreases self@.len() - index,
        {
            let point: Point2<S> = self.points[index];
            let ghost before = boxes;
            bounds = Rect {
                x: Range {
                    start: lesser(point.x, bounds.x.start),
                    end: greater(point.x, bounds.x.end),
                },
                y: Range {
                    start: lesser(point.y, bounds.y.start),
                    end: greater(point.y, bounds.y.end),
                },
            };
            proof {
                boxes = boxes.push(bounds);
                let upto = self@.take(index + 1);
                assert forall|i: int| 1 <= i < upto.len() implies is_stretched(
                    boxes[i - 1].x,
                    upto[i].x,
                    (#[trigger] boxes[i]).x,
                ) && is_stretched(boxes[i - 1].y, upto[i].y, boxes[i].y) by {
                    if i < index {
                        assert(boxes[i] == before[i] && boxes[i - 1] == before[i - 1]);
                        assert(upto[i] == self@.take(index as int)[i]);
                    }
                }
            }
            index = index + 1;
        }
        assert(self@.take(self@.len() as int) =~= self@);
        Ok(bounds)
    }

    /// The mean of the vertices.
    pub fn centroid(&self) -> (result: Result<Point2<S>, NoVertices>)
        ensures
            match result {
                Ok(centre) => self@.len() > 0 && is_centroid(self@, centre),
                Err(_) => self@.len() == 0,
            },
    {
        if self.points.len() == 0 {
            return Err(NoVertices);
        }
        let mut total: Point2<S> = self.points[0];
        let ghost mut totals: Seq<Point2<S>> = seq![total];
        let mut index: usize = 1;
        while index < self.points.len()
            invariant
                1 <= index <= self@.len(),
                is_running_total(self@.take(index as int), totals),
                total == totals.last(),
            decreases self@.len() - index,
        {
            let ghost before = totals;
            total = total.add(self.points[index]);
            proof {
                totals = totals.push(total);
                let upto = self@.take(index + 1);
                assert forall|i: int| 1 <= i < upto.len() implies is_point_sum(
                    totals[i - 1],
                    upto[i],
                    #[trigger] totals[i],
                ) by {
                    if i < index {
                        assert(totals[i] == before[i] && totals[i - 1] == before[i - 1]);
                        assert(upto[i] == self@.take(index as int)[i]);
                    }
                }
            }
            index = index + 1;
        }
        let number: S = S::from_count(self.points.len() as u128);
        assert(self@.take(self@.len() as int) =~= self@);
        assert(is_total(self@, total) && is_count(self@.len() as u128, number));
        Ok(Point2 { x: total.x.over(number), y: total.y.over(number) })
    }

    /// Moves every vertex by `translation`.
    pub fn translate(&mut self, translation: Vec2<S>)
        ensures
            is_translated(old(self)@, translation, final(self)@),
    {
        let count: usize = self.points.len();
        let mut index: usize = 0;
        while index < count
            invariant
                index <= count,
                count == old(self)@.len(),
                self@.len() == count,
                forall|i: int| index <= i < count ==> self@[i] == old(self)@[i],
                forall|i: int| 0 <= i < index ==> is_point_sum(old(self)@[i], translation, #[trigger] self@[i]),
            decreases count - index,
        {
            let moved: Point2<S> = self.points[index].add(translation);
            self.points.set(index, moved);
            index = index + 1;
        }
    }

    /// Rotate clockwise about `centre`; the angle is in radians.
    pub fn rotate_around_point(&mut self, centre: Point2<S>, angle: S)
        ensures
            is_turned_by(old(self)@, centre, angle, final(self)@),
    {
        let sin: S = angle.sine();
        let cos: S = angle.cosine();
        let count: usize = self.points.len();
        let mut index: usize = 0;
        while index < count
            invariant
                index <= count,
                count == old(self)@.len(),
                self@.len() == count,
                forall|i: int| index <= i < count ==> self@[i] == old(self)@[i],
                forall|i: int| 0 <= i < index ==> is_rotated(old(self)@[i], centre, sin, cos, #[trigger] self@[i]),
            decreases count - index,
        {
            let mut point: Point2<S> = self.points[index];
            rotate_point(&mut point, centre, sin, cos);
            self.points.set(index, point);
            index = index + 1;
        }
        assert(is_sine(angle, sin) && is_cosine(angle, cos));
        assert(is_turned(old(self)@, centre, sin, cos, self@));
    }

    /// Rotate clockwise about the centroid; the angle is in radians.
    pub fn rotate(&mut self, angle: S) -> (result: Result<(), NoVertices>)
        ensures
            match result {
                Ok(()) => exists|centre: Point2<S>| #[trigger]
                    is_centroid(old(self)@, centre) && is_turned_by(
                        old(self)@,
                        centre,
                        angle,
                        final(self)@,
                    ),
                Err(_) => old(self)@.len() == 0 && final(self)@ == old(self)@,
            },
    {
        let centre: Point2<S> = match self.centroid() {
            Ok(centre) => centre,
            Err(error) => {
                return Err(error);
            },
        };
        self.rotate_around_point(centre, angle);
        assert(is_centroid(old(self)@, centre));
        Ok(())
    }

    /// Stretches every vertex's offset from `centre` by `scale`.
    pub fn dilate_from_point(&mut self, scale: S, centre: Point2<S>)
        ensures
            is_dilated(old(self)@, scale, centre, final(self)@),
    {
        let count: usize = self.points.len();
        let mut index: usize = 0;
        while index < count
            invariant
                index <= count,
                count == old(self)@.len(),
                self@.len() == count,
                forall|i: int| index <= i < count ==> self@[i] == old(self)@[i],
                forall|i: int| 0 <= i < index ==> is_dilated_point(old(self)@[i], scale, centre, #[trigger] self@[i]),
            decreases count - index,
        {
            let point: Point2<S> = self.points[index];
            let dx: S = point.x.minus(centre.x);
            let dy: S = point.y.minus(centre.y);
            let sx: S = dx.times(scale);
            let sy: S = dy.times(scale);

            // Translate back
            let dilated = Point2 { x: sx.plus(centre.x), y: sy.plus(centre.y) };
            assert(is_difference(point.x, centre.x, dx) && is_difference(point.y, centre.y, dy)
                && is_product(dx, scale, sx) && is_product(dy, scale, sy));
            assert(is_dilated_point(point, scale, centre, dilated));
            self.points.set(index, dilated);
            index = index + 1;
        }
    }

    /// Stretches every vertex's offset from the centroid by `scale`.
    pub fn dilate(&mut self, scale: S) -> (result: Result<(), NoVertices>)
        ensures
            match result {
                Ok(()) => exists|centre: Point2<S>| #[trigger]
                    is_centroid(old(self)@, centre) && is_dilated(
                        old(self)@,
                        scale,
                        centre,
                        final(self)@,
                    ),
                Err(_) => old(self)@.len() == 0 && final(self)@ == old(self)@,
            },
    {
        let centre: Point2<S> = match self.centroid() {
            Ok(centre) => centre,
            Err(error) => {
                return Err(error);
            },
        };
        self.dilate_from_point(scale, centre);
        assert(is_centroid(old(self)@, centre));
        Ok(())
    }
    /// Align self to be above, below, or to the right or left of `polygon`:
    /// the bounding boxes touch on that side and are centred on each other
    /// along it.
    pub fn align(&mut self, polygon: &Self, direction: Direction) -> (result: Result<
        (),
        NoVertices,
    >)
        ensures
            match result {
                Ok(()) => is_aligned(old(self)@, polygon@, direction, final(self)@),
                Err(_) => (old(self)@.len() == 0 || polygon@.len() == 0) && final(self)@ == old(self)@,
            },
    {
        let mine: Rect<S> = match self.bounding_box() {
            Ok(bounds) => bounds,
            Err(error) => {
                return Err(error);
            },
        };
        let theirs: Rect<S> = match polygon.bounding_box() {
            Ok(bounds) => bounds,
            Err(error) => {
                return Err(error);
            },
        };
        let rule: Alignment = direction.alignment();
        let by = Point2 { x: shift(rule.x, mine.x, theirs.x), y: shift(rule.y, mine.y, theirs.y) };
        self.translate(by);
        assert(is_bounding_box(old(self)@, mine) && is_bounding_box(polygon@, theirs) && is_shift(
            spec_alignment(direction).x,
            mine.x,
            theirs.x,
            by.x,
        ) && is_shift(spec_alignment(direction).y, mine.y, theirs.y, by.y));
        Ok(())
    }

    /// Mirrors every vertex in `axis`. Where a vertex cannot be mirrored, the
    /// error of the first such vertex is returned and the polygon stays as it
    /// was.
    pub fn reflect(&mut self, axis: Line<Point2<S>>) -> (result: Result<
        (),
        DegenerateGeometryError,
    >)
        ensures
            result is Ok ==> final(self)@.len() == old(self)@.len() && forall|i: int|
                0 <= i < old(self)@.len() ==> is_reflection(
                    axis,
                    old(self)@[i],
                    Ok::<Point2<S>, DegenerateGeometryError>(#[trigger] final(self)@[i]),
                ),
            result is Err ==> final(self)@ == old(self)@ && exists|i: int| #[trigger]
                fails_first_at(axis, old(self)@, result->Err_0, i),
    {
        let count: usize = self.points.len();
        let mut mirrored: Vec<Point2<S>> = Vec::new();
        let mut index: usize = 0;
        while index < count
            invariant
                index <= count,
                *self == *old(self),
                count == self@.len(),
                mirrored@.len() == index,
                forall|i: int|
                    0 <= i < index ==> is_reflection(
                        axis,
                        self@[i],
                        Ok::<Point2<S>, DegenerateGeometryError>(#[trigger] mirrored@[i]),
                    ),
            decreases count - index,
        {
            match axis.reflect_point(self.points[index]) {
                Ok(point) => {
                    mirrored.push(point);
                },
                Err(error) => {
                    let failure: Result<(), DegenerateGeometryError> = Err(error);
                    assert forall|j: int| 0 <= j < index implies mirrors_at(axis, old(self)@, j) by {
                        assert(is_reflection(
                            axis,
                            old(self)@[j],
                            Ok::<Point2<S>, DegenerateGeometryError>(mirrored@[j]),
                        ));
                    }
                    assert(fails_first_at(axis, old(self)@, failure->Err_0, index as int));
                    return failure;
                },
            }
            index = index + 1;
        }
        self.points = mirrored;
        Ok(())
    }

    /// The distance from `point` to the boundary of the polygon, taken as
    /// closed: zero where `point` lies on it, else the distance to the
    /// nearest point of it. The nearest point is looked up by `search`.
    pub fn distance_to_point<F: Fn(&Polygon<Point2<S>>, Point2<S>) -> Closest<Point2<S>>>(
        &self,
        point: Point2<S>,
        search: &F,
    ) -> (result: Result<S, DistanceError>)
        requires
            call_requires(search, (self, point)),
        ensures
            is_distance_to(*self, point, *search, result),
    {
        if self.points.len() == 0 {
            return Err(DistanceError::NoVertices);
        }
        let closest: Closest<Point2<S>> = search(self, point);
        assert(call_ensures(search, (self, point), closest));
        match closest.nearest() {
            Ok(Nearest::Touching) => {
                let zero: S = S::zero();
                Ok(zero)
            },
            Ok(Nearest::At(nearest)) => {
                let distance: S = nearest.distance(point);
                Ok(distance)
            },
            Err(_) => Err(DistanceError::IndeterminateNearestPoint),
        }
    }

    /// Whether `point` lies on the line through one of the edges of the
    /// closed boundary, by exact comparison. The edges are tried in their
    /// order, and the first that holds the point settles it.
    pub fn point_touches_edge(&self, point: Point2<S>) -> (touches: bool)
        ensures
            touches ==> exists|i: int|
                0 <= i < self@.len() && is_incidence(#[trigger] self.spec_edge(i), point, true),
            !touches ==> forall|i: int|
                0 <= i < self@.len() ==> is_incidence(#[trigger] self.spec_edge(i), point, false),
    {
        let count: usize = self.points.len();
        let mut index: usize = 0;
        while index < count
            invariant
                index <= count,
                count == self@.len(),
                forall|i: int|
                    0 <= i < index ==> is_incidence(#[trigger] self.spec_edge(i), point, false),
            decreases count - index,
        {
            let edge: Line<Point2<S>> = self.edge(index);
            if edge.passes_through(point) {
                assert(is_incidence(self.spec_edge(index as int), point, true));
                return true;
            }
            index = index + 1;
        }
        false
    }
}

/// How far a range moves under a rule of alignment to `other`.
fn shift<S: Scalar>(rule: Shift, moving: Range<S>, other: Range<S>) -> (by: S)
    ensures
        is_shift(rule, moving, other, by),
{
    match rule {
        Shift::CentreToCentre => {
            let two: S = S::from_count(2);
            let other_sum: S = other.start.plus(other.end);
            let other_middle: S = other_sum.over(two);
            let moving_sum: S = moving.start.plus(moving.end);
            let moving_middle: S = moving_sum.over(two);
            assert(is_count(2, two) && is_sum(other.start, other.end, other_sum) && is_quotient(
                other_sum,
                two,
                other_middle,
            ) && is_sum(moving.start, moving.end, moving_sum) && is_quotient(
                moving_sum,
                two,
                moving_middle,
            ));
            other_middle.minus(moving_middle)
        },
        Shift::StartToEnd => other.end.minus(moving.start),
        Shift::EndToStart => other.start.minus(moving.end),
    }
}

/// Whether vertex `at` of `points` can be mirrored in `axis`.
pub open spec fn mirrors_at<S: Scalar>(axis: Line<Point2<S>>, points: Seq<Point2<S>>, at: int)
    -> bool {
    exists|mirrored: Point2<S>| #[trigger]
        is_reflection(axis, points[at], Ok::<Point2<S>, DegenerateGeometryError>(mirrored))
}

/// Whether vertex `at` of `points` is the first that cannot be mirrored in
/// `axis`, and fails with `error`.
pub open spec fn fails_first_at<S: Scalar>(
    axis: Line<Point2<S>>,
    points: Seq<Point2<S>>,
    error: DegenerateGeometryError,
    at: int,
) -> bool {
    &&& 0 <= at < points.len()
    &&& is_reflection(axis, points[at], Err::<Point2<S>, DegenerateGeometryError>(error))
    &&& forall|j: int| 0 <= j < at ==> mirrors_at(axis, points, j)
}

/// `after` is `before` moved to the `direction` side of `other`: by the
/// shifts that the alignment prescribes, taken between the two bounding
/// boxes.
pub open spec fn is_aligned<S: Scalar>(
    before: Seq<Point2<S>>,
    other: Seq<Point2<S>>,
    direction: Direction,
    after: Seq<Point2<S>>,
) -> bool {
    exists|mine: Rect<S>, theirs: Rect<S>, by: Vec2<S>|
        #![trigger
            is_bounding_box(before, mine),
            is_bounding_box(other, theirs),
            is_translated(before, by, after)]
        {
            &&& is_bounding_box(before, mine)
            &&& is_bounding_box(other, theirs)
            &&& is_shift(spec_alignment(direction).x, mine.x, theirs.x, by.x)
            &&& is_shift(spec_alignment(direction).y, mine.y, theirs.y, by.y)
            &&& is_translated(before, by, after)
        }
}

/// The distance that a nearest point of the boundary stands for.
pub open spec fn is_distance_from<S: Scalar>(
    closest: Closest<Point2<S>>,
    point: Point2<S>,
    result: Result<S, DistanceError>,
) -> bool {
    match closest {
        Closest::Intersection(_) => result is Ok && is_zero(result->Ok_0),
        Closest::SinglePoint(nearest) => result is Ok && is_distance(nearest, point, result->Ok_0),
        Closest::Indeterminate => result == Err::<S, DistanceError>(
            DistanceError::IndeterminateNearestPoint,
        ),
    }
}

/// `result` is the distance from `point` to the boundary of `polygon`, with
/// the nearest point looked up by `search`.
pub open spec fn is_distance_to<S: Scalar, F: Fn(&Polygon<Point2<S>>, Point2<S>) -> Closest<
    Point2<S>,
>>(polygon: Polygon<Point2<S>>, point: Point2<S>, search: F, result: Result<S, DistanceError>)
    -> bool {
    if polygon@.len() == 0 {
        result == Err::<S, DistanceError>(DistanceError::NoVertices)
    } else {
        exists|closest: Closest<Point2<S>>|
            #![trigger call_ensures(search, (&polygon, point), closest)]
            call_ensures(search, (&polygon, point), closest) && is_distance_from(
                closest,
                point,
                result,
            )
    }
}

/// Translating there and back restores every vertex exactly, where the
/// arithmetic does: if adding `back` undoes adding `forth` on every number,
/// a polygon translated by `forth` and then by `back` is the polygon it was.
pub proof fn lemma_translate_round_trip<S: Scalar>(
    before: Seq<Point2<S>>,
    between: Seq<Point2<S>>,
    after: Seq<Point2<S>>,
    forth: Vec2<S>,
    back: Vec2<S>,
)
    requires
        is_translated(before, forth, between),
        is_translated(between, back, after),
        forall|p: Point2<S>, q: Point2<S>, r: Point2<S>|
            #[trigger] is_point_sum(p, forth, q) && #[trigger] is_point_sum(q, back, r) ==> r == p,
    ensures
        after == before,
{
    assert forall|i: int| 0 <= i < before.len() implies after[i] == before[i] by {
        assert(is_point_sum(before[i], forth, between[i]));
        assert(is_point_sum(between[i], back, after[i]));
    }
    assert(after =~= before);
}

/// Rotating there and back restores every vertex exactly, where the
/// arithmetic does: if turning a point by the second angle undoes turning it
/// by the first, a polygon turned by the one and then by the other is the
/// polygon it was.
pub proof fn lemma_rotate_round_trip<S: Scalar>(
    before: Seq<Point2<S>>,
    between: Seq<Point2<S>>,
    after: Seq<Point2<S>>,
    centre: Point2<S>,
    forth: (S, S),
    back: (S, S),
)
    requires
        is_turned(before, centre, forth.0, forth.1, between),
        is_turned(between, centre, back.0, back.1, after),
        forall|p: Point2<S>, q: Point2<S>, r: Point2<S>|
            #[trigger] is_rotated(p, centre, forth.0, forth.1, q) && #[trigger] is_rotated(
                q,
                centre,
                back.0,
                back.1,
                r,
            ) ==> r == p,
    ensures
        after == before,
{
    assert forall|i: int| 0 <= i < before.len() implies after[i] == before[i] by {
        assert(is_rotated(before[i], centre, forth.0, forth.1, between[i]));
        assert(is_rotated(between[i], centre, back.0, back.1, after[i]));
    }
    assert(after =~= before);
}

/// Dilating there and back restores every vertex exactly, where the
/// arithmetic does: if stretching a point's offset by the second factor
/// undoes stretching it by the first, a polygon dilated by the one and then
/// by the other is the polygon it was.
pub proof fn lemma_dilate_round_trip<S: Scalar>(
    before: Seq<Point2<S>>,
    between: Seq<Point2<S>>,
    after: Seq<Point2<S>>,
    centre: Point2<S>,
    forth: S,
    back: S,
)
    requires
        is_dilated(before, forth, centre, between),
        is_dilated(between, back, centre, after),
        forall|p: Point2<S>, q: Point2<S>, r: Point2<S>|
            #[trigger] is_dilated_point(p, forth, centre, q) && #[trigger] is_dilated_point(
                q,
                back,
                centre,
                r,
            ) ==> r == p,
    ensures
        after == before,
{
    assert forall|i: int| 0 <= i < before.len() implies after[i] == before[i] by {
        assert(is_dilated_point(before[i], forth, centre, between[i]));
        assert(is_dilated_point(between[i], back, centre, after[i]));
    }
    assert(after =~= before);
}

/// Every geometric operation keeps the number of vertices.
pub proof fn lemma_operations_keep_count<S: Scalar>(
    before: Seq<Point2<S>>,
    after: Seq<Point2<S>>,
    other: Seq<Point2<S>>,
    by: Vec2<S>,
    centre: Point2<S>,
    angle: S,
    scale: S,
    direction: Direction,
)
    ensures
        is_translated(before, by, after) ==> after.len() == before.len(),
        is_turned_by(before, centre, angle, after) ==> after.len() == before.len(),
        is_dilated(before, scale, centre, after) ==> after.len() == before.len(),
        is_aligned(before, other, direction, after) ==> after.len() == before.len(),
{
}

} // verus!
