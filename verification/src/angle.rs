//! Rotation about a point, and the angle at a vertex.

use vstd::prelude::*;
use crate::scalar::{
    greater, is_arc_cosine, is_count, is_difference, is_dot, is_equality, is_greater, is_length,
    is_lesser, is_negation, is_point_difference, is_product, is_quotient, is_radians, is_sum,
    is_zero, lesser, Point2, Scalar,
};

verus! {

/// How the angle between two rays from a common vertex is obtained.
#[derive(Clone, Copy, Debug, PartialEq, Eq, Structural)]
pub enum AngleRule {
    /// The angle is reported as zero, without any further computation.
    Zero,
    /// The angle is the arc cosine of the rays' dot product divided by both of
    /// their lengths.
    ArcCosine,
}

/// The rule for two rays of which it is known whether their dot product is
/// exactly zero and whether either has length exactly zero.
pub open spec fn spec_angle_rule(
    dot_is_zero: bool,
    first_ray_is_zero: bool,
    second_ray_is_zero: bool,
) -> AngleRule {
    if dot_is_zero || first_ray_is_zero || second_ray_is_zero {
        AngleRule::Zero
    } else {
        AngleRule::ArcCosine
    }
}

/// Picks the rule for an angle. A ray of length zero has no direction, and
/// perpendicular rays take the same shortcut: both give zero.
pub fn angle_rule(dot_is_zero: bool, first_ray_is_zero: bool, second_ray_is_zero: bool) -> (rule:
    AngleRule)
    ensures
        rule == spec_angle_rule(dot_is_zero, first_ray_is_zero, second_ray_is_zero),
{
    if dot_is_zero || first_ray_is_zero || second_ray_is_zero {
        AngleRule::Zero
    } else {
        AngleRule::ArcCosine
    }
}

/// The rule does not depend on the order of the two rays.
pub proof fn lemma_angle_rule_symmetric(
    dot_is_zero: bool,
    first_ray_is_zero: bool,
    second_ray_is_zero: bool,
)
    ensures
        spec_angle_rule(dot_is_zero, first_ray_is_zero, second_ray_is_zero) == spec_angle_rule(
            dot_is_zero,
            second_ray_is_zero,
            first_ray_is_zero,
        ),
{
}

/// `q` is `p` turned about `centre` by the angle with the given sine and
/// cosine, clockwise where the y-axis points up:
/// `x' = dx cos + dy sin`, `y' = -dx sin + dy cos`, each measured from the
/// centre.
pub open spec fn is_rotated<S: Scalar>(
    p: Point2<S>,
    centre: Point2<S>,
    sin: S,
    cos: S,
    q: Point2<S>,
) -> bool {
    exists|
        dx: S, dy: S, x_cos: S, y_sin: S, x_sin: S, y_cos: S, turned_x: S, minus_x_sin: S,
        turned_y: S
    |
        #![trigger
            is_difference(p.x, centre.x, dx),
            is_difference(p.y, centre.y, dy),
            is_product(dx, cos, x_cos),
            is_product(dy, sin, y_sin),
            is_product(dx, sin, x_sin),
            is_product(dy, cos, y_cos),
            is_sum(x_cos, y_sin, turned_x),
            is_negation(x_sin, minus_x_sin),
            is_sum(minus_x_sin, y_cos, turned_y)]
        {
            &&& is_difference(p.x, centre.x, dx)
            &&& is_difference(p.y, centre.y, dy)
            &&& is_product(dx, cos, x_cos)
            &&& is_product(dy, sin, y_sin)
            &&& is_product(dx, sin, x_sin)
            &&& is_product(dy, cos, y_cos)
            &&& is_sum(x_cos, y_sin, turned_x)
            &&& is_negation(x_sin, minus_x_sin)
            &&& is_sum(minus_x_sin, y_cos, turned_y)
            &&& is_sum(turned_x, centre.x, q.x)
            &&& is_sum(turned_y, centre.y, q.y)
        }
}

/// `r` is a half turn in radians: 180 degrees, converted.
pub open spec fn is_half_turn<S: Scalar>(r: S) -> bool {
    exists|degrees: S| #[trigger] is_count(180, degrees) && is_radians(degrees, r)
}

/// `r` is the arc cosine of `dot / (first * second)`, kept between zero and
/// a half turn.
pub open spec fn is_enclosed_angle<S: Scalar>(dot: S, first: S, second: S, zero: S, r: S) -> bool {
    exists|lengths: S, cosine: S, angle: S, raised: S, half_turn: S|
        #![trigger
            is_product(first, second, lengths),
            is_quotient(dot, lengths, cosine),
            is_arc_cosine(cosine, angle),
            is_greater(angle, zero, raised),
            is_lesser(raised, half_turn, r)]
        {
            &&& is_product(first, second, lengths)
            &&& is_quotient(dot, lengths, cosine)
            &&& is_arc_cosine(cosine, angle)
            &&& is_greater(angle, zero, raised)
            &&& is_half_turn(half_turn)
            &&& is_lesser(raised, half_turn, r)
        }
}

/// `r` is the angle at `b` between the rays to `a` and to `c`: zero where the
/// rule says so, the enclosed angle otherwise.
pub open spec fn is_angle_between<S: Scalar>(a: Point2<S>, b: Point2<S>, c: Point2<S>, r: S)
    -> bool {
    exists|
        ba: Point2<S>, bc: Point2<S>, dot: S, first: S, second: S, zero: S, dot_is_zero: bool,
        first_is_zero: bool, second_is_zero: bool
    |
        #![trigger
            is_point_difference(a, b, ba),
            is_point_difference(c, b, bc),
            is_dot(ba, bc, dot),
            is_length(ba, first),
            is_length(bc, second),
            is_equality(dot, zero, dot_is_zero),
            is_equality(first, zero, first_is_zero),
            is_equality(second, zero, second_is_zero)]
        {
            &&& is_point_difference(a, b, ba)
            &&& is_point_difference(c, b, bc)
            &&& is_dot(ba, bc, dot)
            &&& is_length(ba, first)
            &&& is_length(bc, second)
            &&& is_zero(zero)
            &&& is_equality(dot, zero, dot_is_zero)
            &&& is_equality(first, zero, first_is_zero)
            &&& is_equality(second, zero, second_is_zero)
            &&& match spec_angle_rule(dot_is_zero, first_is_zero, second_is_zero) {
                AngleRule::Zero => r == zero,
                AngleRule::ArcCosine => is_enclosed_angle(dot, first, second, zero, r),
            }
        }
}

/// Rotate a point clockwise around another point, by the angle whose sine
/// and cosine are given.
pub fn rotate_point<S: Scalar>(point: &mut Point2<S>, centre: Point2<S>, sin: S, cos: S)
    ensures
        is_rotated(*old(point), centre, sin, cos, *final(point)),
{
    // Translate the point to the origin (relative to the centre)
    let dx: S = point.x.minus(centre.x);
    let dy: S = point.y.minus(centre.y);

    // Perform the rotation
    let x_cos: S = dx.times(cos);
    let y_sin: S = dy.times(sin);
    let x_sin: S = dx.times(sin);
    let y_cos: S = dy.times(cos);
    let turned_x: S = x_cos.plus(y_sin);
    let minus_x_sin: S = x_sin.negated();
    let turned_y: S = minus_x_sin.plus(y_cos);

    // Translate the point back
    point.x = turned_x.plus(centre.x);
    point.y = turned_y.plus(centre.y);
    assert(is_difference(old(point).x, centre.x, dx) && is_difference(old(point).y, centre.y, dy)
        && is_product(dx, cos, x_cos) && is_product(dy, sin, y_sin) && is_product(dx, sin, x_sin)
        && is_product(dy, cos, y_cos) && is_sum(x_cos, y_sin, turned_x) && is_negation(
        x_sin,
        minus_x_sin,
    ) && is_sum(minus_x_sin, y_cos, turned_y));
}

/// A half turn in radians.
pub fn half_turn<S: Scalar>() -> (r: S)
    ensures
        is_half_turn(r),
{
    let degrees: S = S::from_count(180);
    assert(is_count(180, degrees));
    degrees.radians()
}

/// The angle at `b` between the rays to `a` and to `c`, in radians, without
/// a sign. It is zero where either ray has no length, and also where the
/// dot product of the rays is exactly zero.
pub fn angle_between_points<S: Scalar>(a: Point2<S>, b: Point2<S>, c: Point2<S>) -> (r: S)
    ensures
        is_angle_between(a, b, c, r),
{
    let ba: Point2<S> = a.sub(b);
    let bc: Point2<S> = c.sub(b);

    let dot: S = ba.dot(bc);
    let first: S = ba.length();
    let second: S = bc.length();

    let zero: S = S::zero();
    let dot_is_zero: bool = dot.equals(zero);
    let first_is_zero: bool = first.equals(zero);
    let second_is_zero: bool = second.equals(zero);
    assert(is_point_difference(a, b, ba) && is_point_difference(c, b, bc) && is_dot(ba, bc, dot)
        && is_length(ba, first) && is_length(bc, second) && is_equality(dot, zero, dot_is_zero)
        && is_equality(first, zero, first_is_zero) && is_equality(second, zero, second_is_zero));

    match angle_rule(dot_is_zero, first_is_zero, second_is_zero) {
        AngleRule::Zero => zero,
        AngleRule::ArcCosine => {
            let lengths: S = first.times(second);
            let cosine: S = dot.over(lengths);
            let angle: S = cosine.arc_cosine();
            let raised: S = greater(angle, zero);
            let limit: S = half_turn();
            let r: S = lesser(raised, limit);
            assert(is_product(first, second, lengths) && is_quotient(dot, lengths, cosine)
                && is_arc_cosine(cosine, angle) && is_greater(angle, zero, raised) && is_lesser(
                raised,
                limit,
                r,
            ));
            assert(is_enclosed_angle(dot, first, second, zero, r));
            r
        },
    }
}

} // verus!
