//! One polygon rolling without slipping around another.
//!
//! A run is set up from two radii and two numbers of sides. Every step
//! measures the angle at the pivot between the two vertices that are to
//! touch next. While that angle exceeds the step angle the rolling polygon
//! turns by the step angle; otherwise it turns by what is left, the two
//! vertices touch, and the nearer of them becomes the new pivot.

use vstd::prelude::*;
use crate::angle::{angle_between_points, is_angle_between, is_rotated, rotate_point};
use crate::contacts::{
    after_step, consistent, initial_view, lemma_step_keeps_history, phase_of, step_error, ConfigurationError, Contact,
    Contacts, ContactsView, Phase, Placement, Side, StepEvent,
};
use crate::line::Closest;
use crate::polygon::{
    is_aligned, is_bounding_box, is_distance_to, is_regular_vertex, is_turned_by, Direction,
    DistanceError, Polygon, Rect,
};
use crate::scalar::{
    is_cosine, is_difference, is_lesser, is_order, is_sine, is_zero, lesser, Point2, Scalar,
};

verus! {

/// Why a step could not be taken. The run is then left as it was.
#[derive(Clone, Copy, Debug, PartialEq, Eq, Structural)]
pub enum RollError {
    /// The search for the nearest point of a boundary came to no result.
    IndeterminateNearestPoint,
    /// The hand-off counter has reached the largest value it can hold.
    CounterExhausted,
}

/// The state of one polygon rolling around another: the contact records,
/// the traced path, and the largest angle of a single rotation.
pub struct RollingState<S> {
    contacts: Contacts<Point2<S>>,
    max_step_angle: S,
}

/// `least` holds, for every point, the least height among the points up to
/// it; a later point takes over only where it compares below.
pub open spec fn is_running_least<S: Scalar>(points: Seq<Point2<S>>, least: Seq<S>) -> bool {
    &&& least.len() == points.len()
    &&& points.len() > 0
    &&& least[0] == points[0].y
    &&& forall|i: int| 1 <= i < points.len() ==> is_lesser(points[i].y, least[i - 1], #[trigger] least[i])
}

/// `y` is the height of the lowest of `points`.
pub open spec fn is_lowest<S: Scalar>(points: Seq<Point2<S>>, y: S) -> bool {
    exists|least: Seq<S>| #[trigger] is_running_least(points, least) && y == least.last()
}

/// `points` are the vertices of the regular polygon with `sides` vertices
/// and the given radius.
pub open spec fn is_regular<S: Scalar>(radius: S, sides: usize, points: Seq<Point2<S>>) -> bool {
    &&& points.len() == sides
    &&& forall|k: int| 0 <= k < sides ==> is_regular_vertex(radius, sides, k, #[trigger] points[k])
}

/// `view` is how a run starts. The fixed polygon is regular about the
/// origin; the rolling polygon is regular and put on top of it. The fixed
/// polygon counts as the wider one where the rolling polygon's bounding box
/// compares narrower. The marked point starts on the y-axis at the height of
/// the rolling polygon's lowest vertex.
pub open spec fn is_start<S: Scalar>(
    fixed_radius: S,
    fixed_sides: usize,
    rotating_radius: S,
    rotating_sides: usize,
    view: ContactsView<Point2<S>>,
) -> bool {
    exists|
        unaligned: Seq<Point2<S>>, fixed_box: Rect<S>, rotating_box: Rect<S>, fixed_width: S,
        rotating_width: S, fixed_is_wider: bool, lowest: S, zero: S
    |
        #![trigger
            is_aligned(unaligned, view.fixed, Direction::Above, view.rotating),
            is_bounding_box(view.fixed, fixed_box),
            is_bounding_box(view.rotating, rotating_box),
            is_order(rotating_width, fixed_width, fixed_is_wider),
            is_lowest(view.rotating, lowest),
            is_zero(zero)]
        {
            &&& is_regular(fixed_radius, fixed_sides, view.fixed)
            &&& is_regular(rotating_radius, rotating_sides, unaligned)
            &&& is_aligned(unaligned, view.fixed, Direction::Above, view.rotating)
            &&& is_bounding_box(view.fixed, fixed_box)
            &&& is_bounding_box(view.rotating, rotating_box)
            &&& is_difference(fixed_box.x.end, fixed_box.x.start, fixed_width)
            &&& is_difference(rotating_box.x.end, rotating_box.x.start, rotating_width)
            &&& is_order(rotating_width, fixed_width, fixed_is_wider)
            &&& is_lowest(view.rotating, lowest)
            &&& is_zero(zero)
            &&& view == initial_view(
                view.fixed,
                view.rotating,
                fixed_is_wider,
                Point2 { x: zero, y: lowest },
            )
        }
}

/// `outcome` is what the hand-off phase measures once the rolling polygon
/// stands as `turned`: the distance from the fixed candidate to the rolling
/// polygon, then the distance from the rolling candidate to the fixed
/// polygon, and whether the first compares below the second.
pub open spec fn is_touch<S: Scalar, F: Fn(&Polygon<Point2<S>>, Point2<S>) -> Closest<Point2<S>>>(
    v: ContactsView<Point2<S>>,
    turned: Polygon<Point2<S>>,
    tracing_point: Point2<S>,
    search: F,
    outcome: Result<StepEvent<Point2<S>>, RollError>,
) -> bool {
    exists|to_rolling: Result<S, DistanceError>|
        #![trigger is_distance_to(turned, v.next_fixed.point, search, to_rolling)]
        is_distance_to(turned, v.next_fixed.point, search, to_rolling) && match to_rolling {
            Err(_) => outcome == Err::<StepEvent<Point2<S>>, RollError>(
                RollError::IndeterminateNearestPoint,
            ),
            Ok(first) => exists|fixed: Polygon<Point2<S>>, to_fixed: Result<S, DistanceError>|
                #![trigger
                    is_distance_to(
                        fixed,
                        turned@[v.next_rotating.index as int],
                        search,
                        to_fixed,
                    )]
                fixed@ == v.fixed && is_distance_to(
                    fixed,
                    turned@[v.next_rotating.index as int],
                    search,
                    to_fixed,
                ) && match to_fixed {
                    Err(_) => outcome == Err::<StepEvent<Point2<S>>, RollError>(
                        RollError::IndeterminateNearestPoint,
                    ),
                    Ok(second) => exists|fixed_candidate_nearer: bool|
                        #![trigger is_order(first, second, fixed_candidate_nearer)]
                        is_order(first, second, fixed_candidate_nearer) && outcome == Ok::<
                            StepEvent<Point2<S>>,
                            RollError,
                        >(
                            StepEvent::Touch {
                                placement: Placement { rotating: turned.points, tracing_point },
                                fixed_candidate_nearer,
                            },
                        ),
                },
        }
}

/// `outcome` is what one step measures in a run that looks like `v`. The
/// angle at the pivot between the rolling and the fixed candidate is
/// compared with the step angle; the rolling polygon and the marked point
/// turn about the pivot by the step angle where the angle exceeds it, and by
/// the angle itself where it does not. In the second case the hand-off
/// phase follows.
pub open spec fn is_measured<S: Scalar, F: Fn(&Polygon<Point2<S>>, Point2<S>) -> Closest<
    Point2<S>,
>>(
    v: ContactsView<Point2<S>>,
    max_step_angle: S,
    search: F,
    outcome: Result<StepEvent<Point2<S>>, RollError>,
) -> bool {
    exists|
        angle: S, exceeds: bool, turn: S, turned: Polygon<Point2<S>>, sin: S, cos: S,
        tracing_point: Point2<S>
    |
        #![trigger
            is_angle_between(v.next_rotating.point, v.pivot.point, v.next_fixed.point, angle),
            is_order(max_step_angle, angle, exceeds),
            is_turned_by(v.rotating, v.pivot.point, turn, turned@),
            is_rotated(v.tracing_point, v.pivot.point, sin, cos, tracing_point)]
        {
            &&& turn == if exceeds {
                max_step_angle
            } else {
                angle
            }
            &&& is_angle_between(v.next_rotating.point, v.pivot.point, v.next_fixed.point, angle)
            &&& is_order(max_step_angle, angle, exceeds)
            &&& is_turned_by(v.rotating, v.pivot.point, turn, turned@)
            &&& is_sine(turn, sin)
            &&& is_cosine(turn, cos)
            &&& is_rotated(v.tracing_point, v.pivot.point, sin, cos, tracing_point)
            &&& if exceeds {
                outcome == Ok::<StepEvent<Point2<S>>, RollError>(
                    StepEvent::Turn(Placement { rotating: turned.points, tracing_point }),
                )
            } else {
                is_touch(v, turned, tracing_point, search, outcome)
            }
        }
}

/// The height of the lowest vertex of a polygon that has vertices.
fn lowest_height<S: Scalar>(polygon: &Polygon<Point2<S>>) -> (y: S)
    requires
        polygon@.len() > 0,
    ensures
        is_lowest(polygon@, y),
{
    let mut lowest: S = polygon.vertex(0).y;
    let ghost mut least: Seq<S> = seq![lowest];
    let mut index: usize = 1;
    while index < polygon.len()
        invariant
            1 <= index <= polygon@.len(),
            is_running_least(polygon@.take(index as int), least),
            lowest == least.last(),
        decreases polygon@.len() - index,
    {
        let ghost before = least;
        lowest = lesser(polygon.vertex(index).y, lowest);
        proof {
            least = least.push(lowest);
            let upto = polygon@.take(index + 1);
            assert forall|i: int| 1 <= i < upto.len() implies is_lesser(
                upto[i].y,
                least[i - 1],
                #[trigger] least[i],
            ) by {
                if i < index {
                    assert(least[i] == before[i] && least[i - 1] == before[i - 1]);
                    assert(upto[i] == polygon@.take(index as int)[i]);
                }
            }
        }
        index = index + 1;
    }
    assert(polygon@.take(polygon@.len() as int) =~= polygon@);
    lowest
}

/// Sets up a run: a fixed polygon of `fixed_sides` sides and a rolling
/// polygon of `rotating_sides` sides on top of it, to be turned by at most
/// `max_step_angle` radians at a time. Either polygon needs three sides.
pub fn new_rolling_state<S: Scalar>(
    fixed_radius: S,
    fixed_sides: usize,
    rotating_radius: S,
    rotating_sides: usize,
    max_step_angle: S,
) -> (result: Result<RollingState<S>, ConfigurationError>)
    ensures
        match result {
            Ok(state) => {
                &&& fixed_sides >= 3
                &&& rotating_sides >= 3
                &&& state.wf()
                &&& state.step_angle() == max_step_angle
                &&& is_start(fixed_radius, fixed_sides, rotating_radius, rotating_sides, state@)
            },
            Err(ConfigurationError::FixedTooSmall) => fixed_sides < 3,
            Err(ConfigurationError::RotatingTooSmall) => fixed_sides >= 3 && rotating_sides < 3,
        },
{
    if fixed_sides < 3 {
        return Err(ConfigurationError::FixedTooSmall);
    }
    if rotating_sides < 3 {
        return Err(ConfigurationError::RotatingTooSmall);
    }
    let fixed: Polygon<Point2<S>> = Polygon::new(fixed_radius, fixed_sides);
    let mut rotating: Polygon<Point2<S>> = Polygon::new(rotating_radius, rotating_sides);
    let ghost unaligned = rotating@;

    let aligned = rotating.align(&fixed, Direction::Above);
    assert(aligned is Ok);

    let fixed_box = fixed.bounding_box();
    let rotating_box = rotating.bounding_box();
    let (fixed_box, rotating_box): (Rect<S>, Rect<S>) = match (fixed_box, rotating_box) {
        (Ok(fixed_box), Ok(rotating_box)) => (fixed_box, rotating_box),
        _ => {
            assert(false);
            return Err(ConfigurationError::FixedTooSmall);
        },
    };
    let fixed_width: S = fixed_box.w();
    let rotating_width: S = rotating_box.w();
    let fixed_is_wider: bool = rotating_width.less_than(fixed_width);

    let lowest: S = lowest_height(&rotating);
    let zero: S = S::zero();
    let tracing_point = Point2 { x: zero, y: lowest };
    let ghost fixed_view = fixed@;
    let ghost rotating_view = rotating@;

    match Contacts::new(fixed, rotating, fixed_is_wider, tracing_point) {
        Ok(contacts) => {
            let state = RollingState { contacts, max_step_angle };
            assert(state@.fixed == fixed_view && state@.rotating == rotating_view);
            assert(is_aligned(unaligned, state@.fixed, Direction::Above, state@.rotating)
                && is_bounding_box(state@.fixed, fixed_box) && is_bounding_box(
                state@.rotating,
                rotating_box,
            ) && is_order(rotating_width, fixed_width, fixed_is_wider) && is_lowest(
                state@.rotating,
                lowest,
            ) && is_zero(zero));
            assert(is_start(fixed_radius, fixed_sides, rotating_radius, rotating_sides, state@));
            Ok(state)
        },
        Err(error) => {
            assert(false);
            Err(error)
        },
    }
}

impl<S: Scalar> RollingState<S> {
    /// The contact records, both polygons and the traced path.
    pub closed spec fn view(&self) -> ContactsView<Point2<S>> {
        self.contacts@
    }

    /// The largest angle of a single rotation.
    pub closed spec fn step_angle(&self) -> S {
        self.max_step_angle
    }

    /// Every run is consistent, and stays so.
    pub open spec fn wf(&self) -> bool {
        consistent(self@)
    }

    /// Takes one step: a rotation by the step angle while the angle at the
    /// pivot exceeds it, the snap into contact and the hand-off otherwise.
    /// `search` looks up the nearest point of a polygon's boundary. A step
    /// that fails changes nothing.
    pub fn step<F: Fn(&Polygon<Point2<S>>, Point2<S>) -> Closest<Point2<S>>>(
        &mut self,
        search: &F,
    ) -> (result: Result<Phase, RollError>)
        requires
            old(self).wf(),
            forall|polygon: Polygon<Point2<S>>, point: Point2<S>|
                call_requires(*search, (&polygon, point)),
        ensures
            final(self).wf(),
            final(self).step_angle() == old(self).step_angle(),
            exists|outcome: Result<StepEvent<Point2<S>>, RollError>|
                #![trigger is_measured(old(self)@, old(self).step_angle(), *search, outcome)]
                is_measured(old(self)@, old(self).step_angle(), *search, outcome) && match outcome {
                    Err(error) => result == Err::<Phase, RollError>(error) && final(self)@ == old(self)@,
                    Ok(event) => if step_error(old(self)@, event).is_some() {
                        result == Err::<Phase, RollError>(RollError::CounterExhausted) && final(self)@ == old(self)@
                    } else {
                        result == Ok::<Phase, RollError>(phase_of(event)) && final(self)@
                            == after_step(old(self)@, event)
                    },
                },
            final(self)@.collision_count >= old(self)@.collision_count,
            old(self)@.traced_path.is_prefix_of(final(self)@.traced_path),
            final(self)@.fixed == old(self)@.fixed,
            final(self)@.rotating.len() == old(self)@.rotating.len(),
    {
        let (next_rotating, pivot, next_fixed) = self.contacts.contact_points();
        let angle: S = angle_between_points(next_rotating, pivot, next_fixed);
        let exceeds: bool = self.max_step_angle.less_than(angle);
        let turn: S = if exceeds {
            self.max_step_angle
        } else {
            angle
        };

        let mut turned: Polygon<Point2<S>> = self.contacts.rotating().copy();
        turned.rotate_around_point(pivot, turn);
        let mut tracing_point: Point2<S> = self.contacts.tracing_point();
        let sin: S = turn.sine();
        let cos: S = turn.cosine();
        rotate_point(&mut tracing_point, pivot, sin, cos);
        assert(is_angle_between(
            old(self)@.next_rotating.point,
            old(self)@.pivot.point,
            old(self)@.next_fixed.point,
            angle,
        ) && is_order(old(self).step_angle(), angle, exceeds) && is_turned_by(
            old(self)@.rotating,
            old(self)@.pivot.point,
            turn,
            turned@,
        ) && is_rotated(old(self)@.tracing_point, old(self)@.pivot.point, sin, cos, tracing_point));

        let outcome: Result<StepEvent<Point2<S>>, RollError> = if exceeds {
            Ok(StepEvent::Turn(Placement { rotating: turned.points, tracing_point }))
        } else {
            let candidate: Point2<S> = turned.vertex(self.contacts.next_rotating().index);
            let to_rolling = turned.distance_to_point(next_fixed, search);
            assert(is_distance_to(turned, old(self)@.next_fixed.point, *search, to_rolling));
            match to_rolling {
                Err(_) => Err(RollError::IndeterminateNearestPoint),
                Ok(first) => {
                    let fixed: &Polygon<Point2<S>> = self.contacts.fixed();
                    let to_fixed = fixed.distance_to_point(candidate, search);
                    assert(fixed@ == old(self)@.fixed && is_distance_to(
                        *fixed,
                        candidate,
                        *search,
                        to_fixed,
                    ));
                    match to_fixed {
                        Err(_) => Err(RollError::IndeterminateNearestPoint),
                        Ok(second) => {
                            let fixed_candidate_nearer: bool = first.less_than(second);
                            assert(is_order(first, second, fixed_candidate_nearer));
                            Ok(
                                StepEvent::Touch {
                                    placement: Placement { rotating: turned.points, tracing_point },
                                    fixed_candidate_nearer,
                                },
                            )
                        },
                    }
                },
            }
        };
        assert(is_measured(old(self)@, old(self).step_angle(), *search, outcome));
        proof {
            if outcome is Ok {
                lemma_step_keeps_history(old(self)@, outcome->Ok_0);
            }
        }
        match outcome {
            Err(error) => Err(error),
            Ok(event) => match self.contacts.step(event) {
                Ok(phase) => Ok(phase),
                Err(_) => Err(RollError::CounterExhausted),
            },
        }
    }

    /// The largest angle of a single rotation, in radians.
    pub fn max_step_angle(&self) -> (angle: S)
        ensures
            angle == self.step_angle(),
    {
        self.max_step_angle
    }

    /// The polygon that never moves.
    pub fn fixed(&self) -> (polygon: &Polygon<Point2<S>>)
        ensures
            polygon@ == self@.fixed,
    {
        self.contacts.fixed()
    }

    /// The polygon that rolls.
    pub fn rotating(&self) -> (polygon: &Polygon<Point2<S>>)
        ensures
            polygon@ == self@.rotating,
    {
        self.contacts.rotating()
    }

    /// The vertex that the rolling polygon currently turns about.
    pub fn pivot(&self) -> (contact: Contact<Point2<S>>)
        ensures
            contact == self@.pivot,
    {
        self.contacts.pivot()
    }

    /// The polygon that the pivot belongs to.
    pub fn pivot_side(&self) -> (side: Side)
        ensures
            side == self@.pivot_side,
    {
        self.contacts.pivot_side()
    }

    /// The fixed polygon's vertex that is expected to touch next.
    pub fn next_fixed(&self) -> (contact: Contact<Point2<S>>)
        ensures
            contact == self@.next_fixed,
    {
        self.contacts.next_fixed()
    }

    /// The rolling polygon's vertex that is expected to touch next.
    pub fn next_rotating(&self) -> (contact: Contact<Point2<S>>)
        ensures
            contact == self@.next_rotating,
    {
        self.contacts.next_rotating()
    }

    /// The positions that the marked point has passed through, oldest first.
    pub fn traced_path(&self) -> (path: &Vec<Point2<S>>)
        ensures
            path@ == self@.traced_path,
    {
        self.contacts.traced_path()
    }

    /// The marked point.
    pub fn tracing_point(&self) -> (point: Point2<S>)
        ensures
            point == self@.tracing_point,
    {
        self.contacts.tracing_point()
    }

    /// The number of hand-offs so far.
    pub fn collision_count(&self) -> (count: u32)
        ensures
            count == self@.collision_count,
    {
        self.contacts.collision_count()
    }
}

} // verus!
