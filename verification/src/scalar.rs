//! The numbers that the geometry computes with.
//!
//! The kernel never looks into a number. It asks the number type to add,
//! to compare, to take a sine, and states of every result which operation
//! on which operands produced it: `is_sum(a, b, r)` says that `r` is what
//! `a.plus(b)` may return. What the kernel proves therefore holds for every
//! number type, whatever its arithmetic is.

use vstd::prelude::*;

verus! {

/// A number type: a field with order, roots and the circular functions.
pub trait Scalar: Copy {
    /// The number zero.
    fn zero() -> Self;

    /// The whole number `count`.
    fn from_count(count: u128) -> Self;

    fn plus(self, other: Self) -> Self;

    fn minus(self, other: Self) -> Self;

    fn times(self, other: Self) -> Self;

    fn over(self, other: Self) -> Self;

    fn negated(self) -> Self;

    fn square_root(self) -> Self;

    /// The sine of an angle in radians.
    fn sine(self) -> Self;

    /// The cosine of an angle in radians.
    fn cosine(self) -> Self;

    /// The angle in radians, from zero to a half turn, with this cosine.
    fn arc_cosine(self) -> Self;

    /// An angle in degrees as radians.
    fn radians(self) -> Self;

    /// Exact equality.
    fn equals(self, other: Self) -> bool;

    fn less_than(self, other: Self) -> bool;
}

pub open spec fn is_zero<S: Scalar>(r: S) -> bool {
    call_ensures(S::zero, (), r)
}

pub open spec fn is_count<S: Scalar>(count: u128, r: S) -> bool {
    call_ensures(S::from_count, (count,), r)
}

pub open spec fn is_sum<S: Scalar>(a: S, b: S, r: S) -> bool {
    call_ensures(S::plus, (a, b), r)
}

pub open spec fn is_difference<S: Scalar>(a: S, b: S, r: S) -> bool {
    call_ensures(S::minus, (a, b), r)
}

pub open spec fn is_product<S: Scalar>(a: S, b: S, r: S) -> bool {
    call_ensures(S::times, (a, b), r)
}

pub open spec fn is_quotient<S: Scalar>(a: S, b: S, r: S) -> bool {
    call_ensures(S::over, (a, b), r)
}

pub open spec fn is_negation<S: Scalar>(a: S, r: S) -> bool {
    call_ensures(S::negated, (a,), r)
}

pub open spec fn is_root<S: Scalar>(a: S, r: S) -> bool {
    call_ensures(S::square_root, (a,), r)
}

pub open spec fn is_sine<S: Scalar>(a: S, r: S) -> bool {
    call_ensures(S::sine, (a,), r)
}

pub open spec fn is_cosine<S: Scalar>(a: S, r: S) -> bool {
    call_ensures(S::cosine, (a,), r)
}

pub open spec fn is_arc_cosine<S: Scalar>(a: S, r: S) -> bool {
    call_ensures(S::arc_cosine, (a,), r)
}

pub open spec fn is_radians<S: Scalar>(a: S, r: S) -> bool {
    call_ensures(S::radians, (a,), r)
}

/// `same` is what the exact comparison of `a` and `b` may return.
pub open spec fn is_equality<S: Scalar>(a: S, b: S, same: bool) -> bool {
    call_ensures(S::equals, (a, b), same)
}

/// `less` is what the comparison `a < b` may return.
pub open spec fn is_order<S: Scalar>(a: S, b: S, less: bool) -> bool {
    call_ensures(S::less_than, (a, b), less)
}

/// `r` is `a` where `a < b` was found, else `b`.
pub open spec fn is_lesser<S: Scalar>(a: S, b: S, r: S) -> bool {
    exists|less: bool| #[trigger] is_order(a, b, less) && r == if less { a } else { b }
}

/// `r` is `a` where `b < a` was found, else `b`.
pub open spec fn is_greater<S: Scalar>(a: S, b: S, r: S) -> bool {
    exists|less: bool| #[trigger] is_order(b, a, less) && r == if less { a } else { b }
}

/// The lesser of two numbers: `a` if it compares below `b`, else `b`.
pub fn lesser<S: Scalar>(a: S, b: S) -> (r: S)
    ensures
        is_lesser(a, b, r),
{
    let less: bool = a.less_than(b);
    assert(is_order(a, b, less));
    if less {
        a
    } else {
        b
    }
}

/// The greater of two numbers: `a` if `b` compares below it, else `b`.
pub fn greater<S: Scalar>(a: S, b: S) -> (r: S)
    ensures
        is_greater(a, b, r),
{
    let less: bool = b.less_than(a);
    assert(is_order(b, a, less));
    if less {
        a
    } else {
        b
    }
}

/// A point of the plane, or a vector in it.
#[derive(Copy, Debug)]
pub struct Point2<S> {
    pub x: S,
    pub y: S,
}

impl<S: Copy> Clone for Point2<S> {
    fn clone(&self) -> (copy: Self)
        ensures
            copy == *self,
    {
        *self
    }
}

/// A vector is held as the point it leads to from the origin.
pub type Vec2<S> = Point2<S>;

pub open spec fn is_point_sum<S: Scalar>(p: Point2<S>, q: Point2<S>, r: Point2<S>) -> bool {
    is_sum(p.x, q.x, r.x) && is_sum(p.y, q.y, r.y)
}

pub open spec fn is_point_difference<S: Scalar>(p: Point2<S>, q: Point2<S>, r: Point2<S>) -> bool {
    is_difference(p.x, q.x, r.x) && is_difference(p.y, q.y, r.y)
}

pub open spec fn is_scaled<S: Scalar>(p: Point2<S>, k: S, r: Point2<S>) -> bool {
    is_product(p.x, k, r.x) && is_product(p.y, k, r.y)
}

/// `r` is `p.x * q.x + p.y * q.y`.
pub open spec fn is_dot<S: Scalar>(p: Point2<S>, q: Point2<S>, r: S) -> bool {
    exists|xx: S, yy: S|
        #![trigger is_product(p.x, q.x, xx), is_product(p.y, q.y, yy)]
        is_product(p.x, q.x, xx) && is_product(p.y, q.y, yy) && is_sum(xx, yy, r)
}

/// `r` is the square root of the dot product of `p` with itself.
pub open spec fn is_length<S: Scalar>(p: Point2<S>, r: S) -> bool {
    exists|square: S| #[trigger] is_dot(p, p, square) && is_root(square, r)
}

/// `r` is the length of `p - q`.
pub open spec fn is_distance<S: Scalar>(p: Point2<S>, q: Point2<S>, r: S) -> bool {
    exists|offset: Point2<S>| #[trigger] is_point_difference(p, q, offset) && is_length(offset, r)
}

/// `same` says whether both coordinates of `p` and `q` were found equal.
pub open spec fn is_point_equality<S: Scalar>(p: Point2<S>, q: Point2<S>, same: bool) -> bool {
    exists|same_x: bool, same_y: bool|
        #![trigger is_equality(p.x, q.x, same_x), is_equality(p.y, q.y, same_y)]
        is_equality(p.x, q.x, same_x) && is_equality(p.y, q.y, same_y) && same == (same_x
            && same_y)
}

impl<S: Scalar> Point2<S> {
    pub fn new(x: S, y: S) -> (point: Self)
        ensures
            point == (Point2 { x, y }),
    {
        Point2 { x, y }
    }

    /// The sum of two vectors.
    pub fn add(self, other: Self) -> (r: Self)
        ensures
            is_point_sum(self, other, r),
    {
        Point2 { x: self.x.plus(other.x), y: self.y.plus(other.y) }
    }

    /// The vector from `other` to this point.
    pub fn sub(self, other: Self) -> (r: Self)
        ensures
            is_point_difference(self, other, r),
    {
        Point2 { x: self.x.minus(other.x), y: self.y.minus(other.y) }
    }

    /// The vector stretched by the factor `k`.
    pub fn scale(self, k: S) -> (r: Self)
        ensures
            is_scaled(self, k, r),
    {
        Point2 { x: self.x.times(k), y: self.y.times(k) }
    }

    /// The dot product of two vectors.
    pub fn dot(self, other: Self) -> (r: S)
        ensures
            is_dot(self, other, r),
    {
        let xx: S = self.x.times(other.x);
        let yy: S = self.y.times(other.y);
        assert(is_product(self.x, other.x, xx) && is_product(self.y, other.y, yy));
        xx.plus(yy)
    }

    /// The length of a vector.
    pub fn length(self) -> (r: S)
        ensures
            is_length(self, r),
    {
        let square: S = self.dot(self);
        square.square_root()
    }

    /// The distance between two points.
    pub fn distance(self, other: Self) -> (r: S)
        ensures
            is_distance(self, other, r),
    {
        let offset: Self = self.sub(other);
        offset.length()
    }

    /// Whether two points have exactly the same coordinates.
    pub fn equals(self, other: Self) -> (same: bool)
        ensures
            is_point_equality(self, other, same),
    {
        let same_x: bool = self.x.equals(other.x);
        let same_y: bool = self.y.equals(other.y);
        assert(is_equality(self.x, other.x, same_x) && is_equality(self.y, other.y, same_y));
        same_x && same_y
    }
}

} // verus!
