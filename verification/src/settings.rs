//! The settings of a rolling run, and the rule by which a frame keeps
//! stepping.

use vstd::prelude::*;

verus! {

/// The fewest vertices that a polygon of a run may have.
pub const MIN_SIDES: usize = 3;

/// The settings of a run. The radii are carried, never inspected.
#[derive(Copy, Debug)]
pub struct Settings<R> {
    pub fixed_radius: R,
    pub rotating_radius: R,
    pub fixed_sides: usize,
    pub rotating_sides: usize,
    /// Below zero, the rolling is animated from the start; from zero on, that
    /// many hand-offs are performed at once.
    pub collisions_num: i32,
    /// The number of steps per frame while the rolling is animated.
    pub speed: u32,
}

impl<R: Copy> Clone for Settings<R> {
    fn clone(&self) -> (copy: Self)
        ensures
            copy == *self,
    {
        *self
    }
}

/// The settings that are in force and those that are being edited.
#[derive(Copy, Debug)]
pub struct Panel<R> {
    pub applied: Settings<R>,
    pub pending: Settings<R>,
}

impl<R: Copy> Clone for Panel<R> {
    fn clone(&self) -> (copy: Self)
        ensures
            copy == *self,
    {
        *self
    }
}

/// The settings that a run starts with: a triangle held fixed, a square
/// rolling, both of the given radius, animated at four steps per frame.
pub open spec fn spec_default_settings<R>(radius: R) -> Settings<R> {
    Settings {
        fixed_radius: radius,
        rotating_radius: radius,
        fixed_sides: 3,
        rotating_sides: 4,
        collisions_num: -1i32,
        speed: 4,
    }
}

/// Whether another step is due in the current frame: while a target number
/// of hand-offs is set, until it is reached; otherwise, until `speed` steps
/// have been taken in this frame.
pub open spec fn spec_wants_step<R>(
    settings: Settings<R>,
    collision_count: u32,
    steps_taken: u32,
) -> bool {
    if settings.collisions_num >= 0 {
        collision_count < settings.collisions_num
    } else {
        steps_taken < settings.speed
    }
}

/// The panel after its buttons were read: "apply" puts the edited settings in
/// force, "reset" puts the defaults in both places, and "apply" wins where
/// both were pressed.
pub open spec fn spec_pressed<R>(
    panel: Panel<R>,
    apply: bool,
    reset: bool,
    defaults: Settings<R>,
) -> Panel<R> {
    if apply {
        Panel { applied: panel.pending, pending: panel.pending }
    } else if reset {
        Panel { applied: defaults, pending: defaults }
    } else {
        panel
    }
}

impl<R: Copy> Settings<R> {
    /// The settings that a run starts with.
    pub fn new(radius: R) -> (settings: Self)
        ensures
            settings == spec_default_settings(radius),
    {
        Settings {
            fixed_radius: radius,
            rotating_radius: radius,
            fixed_sides: 3,
            rotating_sides: 4,
            collisions_num: -1,
            speed: 4,
        }
    }

    /// Whether both polygons get enough vertices to roll.
    pub fn sides_are_valid(&self) -> (valid: bool)
        ensures
            valid == (self.fixed_sides >= MIN_SIDES && self.rotating_sides >= MIN_SIDES),
    {
        self.fixed_sides >= MIN_SIDES && self.rotating_sides >= MIN_SIDES
    }

    /// The number of hand-offs to perform at once, if one is set.
    pub fn target_collisions(&self) -> (target: Option<u32>)
        ensures
            target == if self.collisions_num >= 0 {
                Some(self.collisions_num as u32)
            } else {
                None::<u32>
            },
    {
        if self.collisions_num >= 0 {
            Some(self.collisions_num as u32)
        } else {
            None
        }
    }

    /// Whether another step is due in the current frame, after `steps_taken`
    /// steps in it and `collision_count` hand-offs in all.
    pub fn wants_step(&self, collision_count: u32, steps_taken: u32) -> (due: bool)
        ensures
            due == spec_wants_step(*self, collision_count, steps_taken),
    {
        if self.collisions_num >= 0 {
            collision_count < self.collisions_num as u32
        } else {
            steps_taken < self.speed
        }
    }
}

impl<R: Copy> Panel<R> {
    /// A panel on which nothing has been edited.
    pub fn new(settings: Settings<R>) -> (panel: Self)
        ensures
            panel == (Panel { applied: settings, pending: settings }),
    {
        Panel { applied: settings, pending: settings }
    }

    /// Reads the two buttons. Returns whether the run has to start again,
    /// which it has after either button.
    pub fn press(&mut self, apply: bool, reset: bool, defaults: Settings<R>) -> (restart: bool)
        ensures
            *final(self) == spec_pressed(*old(self), apply, reset, defaults),
            restart == (apply || reset),
    {
        if apply {
            self.applied = self.pending;
            true
        } else if reset {
            self.applied = defaults;
            self.pending = defaults;
            true
        } else {
            false
        }
    }
}

/// With a target set, no further step is due once the target is reached,
/// however few steps the frame has seen; without one, a frame never takes
/// more than `speed` steps.
pub proof fn lemma_stepping_stops<R>(settings: Settings<R>, collision_count: u32, steps_taken: u32)
    ensures
        settings.collisions_num >= 0 && collision_count >= settings.collisions_num
            ==> !spec_wants_step(settings, collision_count, steps_taken),
        settings.collisions_num < 0 && steps_taken >= settings.speed ==> !spec_wants_step(
            settings,
            collision_count,
            steps_taken,
        ),
{
}

} // verus!
