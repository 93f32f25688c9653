//! The contact state machine of one polygon rolling around another.
//!
//! The machine owns both polygons, the three contact records and the traced
//! path. It never computes with coordinates: it is told what was measured
//! and how the rolling polygon was turned, as a [`StepEvent`], and decides
//! which record changes. It works for any kind of point.

use vstd::prelude::*;
use crate::polygon::Polygon;
use crate::ring::{
    next_index, prev_index, spec_advance, spec_next_index, spec_prev_index, spec_retreat,
};

verus! {

/// The polygon that a pivot vertex belongs to.
#[derive(Clone, Copy, Debug, PartialEq, Eq, Structural)]
pub enum Side {
    Fixed,
    Rotating,
}

/// A vertex of one of the two polygons, held as its place on the ring together
/// with a copy of its position.
#[derive(Copy, Debug)]
pub struct Contact<P> {
    pub point: P,
    pub index: usize,
}

impl<P: Copy> Clone for Contact<P> {
    fn clone(&self) -> (copy: Self)
        ensures
            copy == *self,
    {
        *self
    }
}

/// Why a pair of polygons cannot roll.
#[derive(Clone, Copy, Debug, PartialEq, Eq, Structural)]
pub enum ConfigurationError {
    /// The fixed polygon has fewer than three vertices.
    FixedTooSmall,
    /// The rolling polygon has fewer than three vertices.
    RotatingTooSmall,
}

/// Why a step was refused. A refused step leaves the machine as it was.
#[derive(Clone, Copy, Debug, PartialEq, Eq, Structural)]
pub enum StepError {
    /// The reported placement has another number of vertices than the rolling
    /// polygon.
    VertexCountChanged,
    /// The hand-off counter has reached the largest value it can hold.
    CounterExhausted,
}

/// Where the rolling polygon and the marked point stand after a rotation
/// about the pivot.
pub struct Placement<P> {
    /// The rolling polygon's vertices, in their ring order.
    pub rotating: Vec<P>,
    /// The marked point.
    pub tracing_point: P,
}

/// What was measured, and what was done to the rolling polygon, in one step.
pub enum StepEvent<P> {
    /// The angle at the pivot exceeded the step angle; the rolling polygon was
    /// turned by the step angle.
    Turn(Placement<P>),
    /// The angle at the pivot did not exceed the step angle; the rolling
    /// polygon was turned by that remaining angle, which brings the two
    /// candidates into contact. `fixed_candidate_nearer` says whether the
    /// fixed polygon's candidate is then nearer to the rolling polygon's
    /// boundary than the rolling polygon's candidate is to the fixed
    /// polygon's boundary.
    Touch { placement: Placement<P>, fixed_candidate_nearer: bool },
}

/// Which of the two phases a step went through.
#[derive(Clone, Copy, Debug, PartialEq, Eq, Structural)]
pub enum Phase {
    Rotation,
    HandOff,
}

/// The mathematical content of a [`Contacts`].
pub ghost struct ContactsView<P> {
    pub fixed: Seq<P>,
    pub rotating: Seq<P>,
    pub pivot: Contact<P>,
    pub pivot_side: Side,
    pub next_fixed: Contact<P>,
    pub next_rotating: Contact<P>,
    pub traced_path: Seq<P>,
    pub tracing_point: P,
    pub collision_count: nat,
}

/// The contact records agree with the polygons they point into.
pub open spec fn consistent<P>(v: ContactsView<P>) -> bool {
    &&& 3 <= v.fixed.len() <= usize::MAX
    &&& 3 <= v.rotating.len() <= usize::MAX
    &&& v.next_fixed.index < v.fixed.len()
    &&& v.next_rotating.index < v.rotating.len()
    &&& v.next_fixed.point == v.fixed[v.next_fixed.index as int]
    &&& v.next_rotating.point == v.rotating[v.next_rotating.index as int]
    &&& match v.pivot_side {
        Side::Fixed => v.pivot.index < v.fixed.len() && v.pivot.point == v.fixed[
            v.pivot.index as int],
        Side::Rotating => v.pivot.index < v.rotating.len(),
    }
    &&& v.collision_count <= u32::MAX
}

/// The three contact records at the start of a run: a pivot, its side, and
/// the candidates on the fixed and on the rolling polygon, in that order.
pub open spec fn initial_contacts<P>(fixed: Seq<P>, rotating: Seq<P>, fixed_is_wider: bool) -> (
    Contact<P>,
    Side,
    Contact<P>,
    Contact<P>,
) {
    let quarter = rotating.len() as int / 4;
    if fixed.len() % 2 == 0 {
        if fixed_is_wider {
            let before = spec_prev_index(quarter, rotating.len() as int);
            (
                Contact { point: rotating[quarter], index: quarter as usize },
                Side::Rotating,
                Contact { point: fixed[0], index: 0 },
                Contact { point: rotating[before], index: before as usize },
            )
        } else {
            (
                Contact { point: fixed[0], index: 0 },
                Side::Fixed,
                Contact { point: fixed[1], index: 1 },
                Contact { point: rotating[quarter], index: quarter as usize },
            )
        }
    } else {
        let last = fixed.len() - 1;
        (
            Contact { point: fixed[last], index: last as usize },
            Side::Fixed,
            Contact { point: fixed[0], index: 0 },
            Contact { point: rotating[quarter], index: quarter as usize },
        )
    }
}

/// The machine at the start of a run.
pub open spec fn initial_view<P>(
    fixed: Seq<P>,
    rotating: Seq<P>,
    fixed_is_wider: bool,
    tracing_point: P,
) -> ContactsView<P> {
    let contacts = initial_contacts(fixed, rotating, fixed_is_wider);
    ContactsView {
        fixed,
        rotating,
        pivot: contacts.0,
        pivot_side: contacts.1,
        next_fixed: contacts.2,
        next_rotating: contacts.3,
        traced_path: Seq::empty(),
        tracing_point,
        collision_count: 0,
    }
}

/// The machine after a rotation phase: the rolling polygon and the marked
/// point take the reported placement, the rolling candidate's position is read
/// again from its vertex, and the marked point joins the path.
pub open spec fn after_turn<P>(v: ContactsView<P>, rotating: Seq<P>, tracing_point: P)
    -> ContactsView<P> {
    ContactsView {
        rotating,
        tracing_point,
        next_rotating: Contact {
            point: rotating[v.next_rotating.index as int],
            index: v.next_rotating.index,
        },
        traced_path: v.traced_path.push(tracing_point),
        ..v
    }
}

/// The machine after a hand-off phase. The rolling polygon and the marked
/// point take the reported placement and the counter goes up by one. Then the
/// nearer candidate becomes the pivot: the fixed candidate moves one vertex
/// forward if it was the one, the rolling candidate one vertex backward
/// otherwise. Both candidates' positions are read again from their vertices.
pub open spec fn after_hand_off<P>(
    v: ContactsView<P>,
    rotating: Seq<P>,
    tracing_point: P,
    fixed_candidate_nearer: bool,
) -> ContactsView<P> {
    if fixed_candidate_nearer {
        let forward = spec_next_index(v.next_fixed.index as int, v.fixed.len() as int);
        ContactsView {
            rotating,
            tracing_point,
            pivot: Contact {
                point: v.fixed[v.next_fixed.index as int],
                index: v.next_fixed.index,
            },
            pivot_side: Side::Fixed,
            next_fixed: Contact { point: v.fixed[forward], index: forward as usize },
            next_rotating: Contact {
                point: rotating[v.next_rotating.index as int],
                index: v.next_rotating.index,
            },
            collision_count: v.collision_count + 1,
            ..v
        }
    } else {
        let backward = spec_prev_index(v.next_rotating.index as int, rotating.len() as int);
        ContactsView {
            rotating,
            tracing_point,
            pivot: Contact {
                point: rotating[v.next_rotating.index as int],
                index: v.next_rotating.index,
            },
            pivot_side: Side::Rotating,
            next_fixed: Contact {
                point: v.fixed[v.next_fixed.index as int],
                index: v.next_fixed.index,
            },
            next_rotating: Contact { point: rotating[backward], index: backward as usize },
            collision_count: v.collision_count + 1,
            ..v
        }
    }
}

/// The error that refuses `event` in a machine that looks like `v`, if any.
pub open spec fn step_error<P>(v: ContactsView<P>, event: StepEvent<P>) -> Option<StepError> {
    match event {
        StepEvent::Turn(placement) => if placement.rotating@.len() != v.rotating.len() {
            Some(StepError::VertexCountChanged)
        } else {
            None
        },
        StepEvent::Touch { placement, fixed_candidate_nearer } => if placement.rotating@.len()
            != v.rotating.len() {
            Some(StepError::VertexCountChanged)
        } else if v.collision_count >= u32::MAX {
            Some(StepError::CounterExhausted)
        } else {
            None
        },
    }
}

/// The machine that an accepted `event` leads to from `v`.
pub open spec fn after_step<P>(v: ContactsView<P>, event: StepEvent<P>) -> ContactsView<P> {
    match event {
        StepEvent::Turn(placement) => after_turn(v, placement.rotating@, placement.tracing_point),
        StepEvent::Touch { placement, fixed_candidate_nearer } => after_hand_off(
            v,
            placement.rotating@,
            placement.tracing_point,
            fixed_candidate_nearer,
        ),
    }
}

/// The phase that `event` belongs to.
pub open spec fn phase_of<P>(event: StepEvent<P>) -> Phase {
    match event {
        StepEvent::Turn(_) => Phase::Rotation,
        StepEvent::Touch { .. } => Phase::HandOff,
    }
}

/// One step of the model: a refused event changes nothing.
pub open spec fn step_view<P>(v: ContactsView<P>, event: StepEvent<P>) -> ContactsView<P> {
    if step_error(v, event).is_some() {
        v
    } else {
        after_step(v, event)
    }
}

/// The model after a whole sequence of steps, first event first.
pub open spec fn run_view<P>(v: ContactsView<P>, events: Seq<StepEvent<P>>) -> ContactsView<P>
    decreases events.len(),
{
    if events.len() == 0 {
        v
    } else {
        step_view(run_view(v, events.drop_last()), events.last())
    }
}

/// A step keeps a consistent machine consistent. It never lowers the hand-off
/// counter and never shortens or rewrites the traced path; it leaves the fixed
/// polygon and the rolling polygon's vertex count alone.
pub proof fn lemma_step_keeps_history<P>(v: ContactsView<P>, event: StepEvent<P>)
    requires
        consistent(v),
    ensures
        consistent(step_view(v, event)),
        step_view(v, event).collision_count >= v.collision_count,
        step_view(v, event).traced_path.len() >= v.traced_path.len(),
        v.traced_path.is_prefix_of(step_view(v, event).traced_path),
        step_view(v, event).fixed == v.fixed,
        step_view(v, event).rotating.len() == v.rotating.len(),
{
}

/// A rotation phase adds exactly one point to the path and leaves the pivot,
/// the counter and both candidates' indices as they were. A hand-off phase
/// adds one to the counter and leaves the path as it was.
pub proof fn lemma_phase_effects<P>(v: ContactsView<P>, event: StepEvent<P>)
    requires
        consistent(v),
        step_error(v, event).is_none(),
    ensures
        phase_of(event) == Phase::Rotation ==> {
            &&& after_step(v, event).traced_path.len() == v.traced_path.len() + 1
            &&& after_step(v, event).collision_count == v.collision_count
            &&& after_step(v, event).pivot == v.pivot
            &&& after_step(v, event).pivot_side == v.pivot_side
            &&& after_step(v, event).next_fixed == v.next_fixed
            &&& after_step(v, event).next_rotating.index == v.next_rotating.index
        },
        phase_of(event) == Phase::HandOff ==> {
            &&& after_step(v, event).traced_path == v.traced_path
            &&& after_step(v, event).collision_count == v.collision_count + 1
        },
{
}

/// Over any sequence of steps the hand-off counter never goes down, the
/// traced path only grows at its end, and the machine stays consistent.
pub proof fn lemma_run_keeps_history<P>(v: ContactsView<P>, events: Seq<StepEvent<P>>)
    requires
        consistent(v),
    ensures
        consistent(run_view(v, events)),
        run_view(v, events).collision_count >= v.collision_count,
        run_view(v, events).traced_path.len() >= v.traced_path.len(),
        v.traced_path.is_prefix_of(run_view(v, events).traced_path),
        run_view(v, events).fixed == v.fixed,
        run_view(v, events).rotating.len() == v.rotating.len(),
    decreases events.len(),
{
    if events.len() > 0 {
        lemma_run_keeps_history(v, events.drop_last());
        lemma_step_keeps_history(run_view(v, events.drop_last()), events.last());
    }
}

/// How often each kind of step was taken in a run: rotations, hand-offs to
/// the fixed polygon's candidate, hand-offs to the rolling polygon's
/// candidate.
pub ghost struct StepCounts {
    pub turns: nat,
    pub fixed_hand_offs: nat,
    pub rotating_hand_offs: nat,
}

/// The steps that a machine accepts of a sequence of events, by kind.
pub open spec fn run_counts<P>(v: ContactsView<P>, events: Seq<StepEvent<P>>) -> StepCounts
    decreases events.len(),
{
    if events.len() == 0 {
        StepCounts { turns: 0, fixed_hand_offs: 0, rotating_hand_offs: 0 }
    } else {
        let before = run_counts(v, events.drop_last());
        if step_error(run_view(v, events.drop_last()), events.last()).is_some() {
            before
        } else {
            match events.last() {
                StepEvent::Turn(_) => StepCounts { turns: before.turns + 1, ..before },
                StepEvent::Touch { placement, fixed_candidate_nearer } => if fixed_candidate_nearer {
                    StepCounts { fixed_hand_offs: before.fixed_hand_offs + 1, ..before }
                } else {
                    StepCounts { rotating_hand_offs: before.rotating_hand_offs + 1, ..before }
                },
            }
        }
    }
}

/// A run counts exactly: the counter goes up by the number of hand-offs, the
/// path grows by the number of rotations, the fixed polygon's candidate has
/// gone forward once for every hand-off to it, and the rolling polygon's
/// candidate backward once for every hand-off to it.
pub proof fn lemma_run_counts<P>(v: ContactsView<P>, events: Seq<StepEvent<P>>)
    requires
        consistent(v),
    ensures
        ({
            let counts = run_counts(v, events);
            let after = run_view(v, events);
            &&& after.collision_count == v.collision_count + counts.fixed_hand_offs
                + counts.rotating_hand_offs
            &&& after.traced_path.len() == v.traced_path.len() + counts.turns
            &&& after.next_fixed.index == spec_advance(
                v.next_fixed.index as int,
                v.fixed.len() as int,
                counts.fixed_hand_offs,
            )
            &&& after.next_rotating.index == spec_retreat(
                v.next_rotating.index as int,
                v.rotating.len() as int,
                counts.rotating_hand_offs,
            )
        }),
    decreases events.len(),
{
    if events.len() > 0 {
        lemma_run_counts(v, events.drop_last());
        lemma_run_keeps_history(v, events.drop_last());
    }
}

/// The contact records of one polygon rolling without slipping around
/// another, with both polygons and the traced path.
pub struct Contacts<P> {
    fixed: Polygon<P>,
    rotating: Polygon<P>,
    pivot: Contact<P>,
    pivot_side: Side,
    next_fixed: Contact<P>,
    next_rotating: Contact<P>,
    traced_path: Vec<P>,
    tracing_point: P,
    collision_count: u32,
}

impl<P: Copy> Contacts<P> {
    pub closed spec fn view(&self) -> ContactsView<P> {
        ContactsView {
            fixed: self.fixed@,
            rotating: self.rotating@,
            pivot: self.pivot,
            pivot_side: self.pivot_side,
            next_fixed: self.next_fixed,
            next_rotating: self.next_rotating,
            traced_path: self.traced_path@,
            tracing_point: self.tracing_point,
            collision_count: self.collision_count as nat,
        }
    }

    /// Every machine that this module hands out is consistent, and stays so.
    pub open spec fn wf(&self) -> bool {
        consistent(self@)
    }

    /// Sets up a run. `rotating` must already stand on top of `fixed`;
    /// `fixed_is_wider` says whether the fixed polygon's bounding box is wider
    /// than the rolling polygon's; `tracing_point` is the marked point.
    pub fn new(fixed: Polygon<P>, rotating: Polygon<P>, fixed_is_wider: bool, tracing_point: P)
        -> (result: Result<Self, ConfigurationError>)
        ensures
            match result {
                Ok(state) => {
                    &&& fixed@.len() >= 3
                    &&& rotating@.len() >= 3
                    &&& state@ == initial_view(fixed@, rotating@, fixed_is_wider, tracing_point)
                    &&& state.wf()
                },
                Err(ConfigurationError::FixedTooSmall) => fixed@.len() < 3,
                Err(ConfigurationError::RotatingTooSmall) => fixed@.len() >= 3 && rotating@.len()
                    < 3,
            },
    {
        if fixed.len() < 3 {
            return Err(ConfigurationError::FixedTooSmall);
        }
        if rotating.len() < 3 {
            return Err(ConfigurationError::RotatingTooSmall);
        }
        let quarter: usize = rotating.len() / 4;
        let pivot: Contact<P>;
        let pivot_side: Side;
        let next_fixed: Contact<P>;
        let next_rotating: Contact<P>;
        if fixed.len() % 2 == 0 {
            if fixed_is_wider {
                let before: usize = prev_index(quarter, rotating.len());
                pivot = Contact { point: rotating.vertex(quarter), index: quarter };
                pivot_side = Side::Rotating;
                next_fixed = Contact { point: fixed.vertex(0), index: 0 };
                next_rotating = Contact { point: rotating.vertex(before), index: before };
            } else {
                pivot = Contact { point: fixed.vertex(0), index: 0 };
                pivot_side = Side::Fixed;
                next_fixed = Contact { point: fixed.vertex(1), index: 1 };
                next_rotating = Contact { point: rotating.vertex(quarter), index: quarter };
            }
        } else {
            let last: usize = fixed.len() - 1;
            pivot = Contact { point: fixed.vertex(last), index: last };
            pivot_side = Side::Fixed;
            next_fixed = Contact { point: fixed.vertex(0), index: 0 };
            next_rotating = Contact { point: rotating.vertex(quarter), index: quarter };
        }
        Ok(
            Contacts {
                fixed,
                rotating,
                pivot,
                pivot_side,
                next_fixed,
                next_rotating,
                traced_path: Vec::new(),
                tracing_point,
                collision_count: 0,
            },
        )
    }

    /// Takes one step: a rotation phase for a `Turn`, a hand-off phase for a
    /// `Touch`. A refused step changes nothing.
    pub fn step(&mut self, event: StepEvent<P>) -> (result: Result<Phase, StepError>)
        requires
            old(self).wf(),
        ensures
            final(self).wf(),
            match step_error(old(self)@, event) {
                Some(error) => result == Err::<Phase, StepError>(error) && final(self)@ == old(self)@,
                None => result == Ok::<Phase, StepError>(phase_of(event)) && final(self)@
                    == after_step(old(self)@, event),
            },
            final(self)@.collision_count >= old(self)@.collision_count,
            old(self)@.traced_path.is_prefix_of(final(self)@.traced_path),
    {
        match event {
            StepEvent::Turn(placement) => {
                if placement.rotating.len() != self.rotating.len() {
                    return Err(StepError::VertexCountChanged);
                }
                self.rotating = Polygon::from_points(placement.rotating);
                self.tracing_point = placement.tracing_point;
                self.next_rotating.point = self.rotating.vertex(self.next_rotating.index);
                self.traced_path.push(placement.tracing_point);
                Ok(Phase::Rotation)
            },
            StepEvent::Touch { placement, fixed_candidate_nearer } => {
                if placement.rotating.len() != self.rotating.len() {
                    return Err(StepError::VertexCountChanged);
                }
                if self.collision_count == u32::MAX {
                    return Err(StepError::CounterExhausted);
                }
                self.rotating = Polygon::from_points(placement.rotating);
                self.tracing_point = placement.tracing_point;
                self.collision_count = self.collision_count + 1;
                self.next_rotating.point = self.rotating.vertex(self.next_rotating.index);
                if fixed_candidate_nearer {
                    self.pivot = self.next_fixed;
                    self.pivot_side = Side::Fixed;
                    self.next_fixed.index = next_index(self.next_fixed.index, self.fixed.len());
                    self.next_fixed.point = self.fixed.vertex(self.next_fixed.index);
                } else {
                    self.pivot = self.next_rotating;
                    self.pivot_side = Side::Rotating;
                    self.next_rotating.index = prev_index(
                        self.next_rotating.index,
                        self.rotating.len(),
                    );
                    self.next_rotating.point = self.rotating.vertex(self.next_rotating.index);
                }
                Ok(Phase::HandOff)
            },
        }
    }

    /// The three points between which the angle at the pivot is measured: the
    /// rolling candidate, the pivot, the fixed candidate.
    pub fn contact_points(&self) -> (points: (P, P, P))
        ensures
            points == (self@.next_rotating.point, self@.pivot.point, self@.next_fixed.point),
    {
        (self.next_rotating.point, self.pivot.point, self.next_fixed.point)
    }

    /// The polygon that never moves.
    pub fn fixed(&self) -> (polygon: &Polygon<P>)
        ensures
            polygon@ == self@.fixed,
    {
        &self.fixed
    }

    /// The polygon that rolls.
    pub fn rotating(&self) -> (polygon: &Polygon<P>)
        ensures
            polygon@ == self@.rotating,
    {
        &self.rotating
    }

    /// The vertex that the rolling polygon currently turns about.
    pub fn pivot(&self) -> (contact: Contact<P>)
        ensures
            contact == self@.pivot,
    {
        self.pivot
    }

    /// The polygon that the pivot belongs to.
    pub fn pivot_side(&self) -> (side: Side)
        ensures
            side == self@.pivot_side,
    {
        self.pivot_side
    }

    /// The fixed polygon's vertex that is expected to touch next.
    pub fn next_fixed(&self) -> (contact: Contact<P>)
        ensures
            contact == self@.next_fixed,
    {
        self.next_fixed
    }

    /// The rolling polygon's vertex that is expected to touch next.
    pub fn next_rotating(&self) -> (contact: Contact<P>)
        ensures
            contact == self@.next_rotating,
    {
        self.next_rotating
    }

    /// The positions that the marked point has passed through, oldest first.
    pub fn traced_path(&self) -> (path: &Vec<P>)
        ensures
            path@ == self@.traced_path,
    {
        &self.traced_path
    }

    /// The marked point.
    pub fn tracing_point(&self) -> (point: P)
        ensures
            point == self@.tracing_point,
    {
        self.tracing_point
    }

    /// The number of hand-offs so far.
    pub fn collision_count(&self) -> (count: u32)
        ensures
            count == self@.collision_count,
    {
        self.collision_count
    }
}

} // verus!
