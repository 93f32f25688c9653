//! A point on the pixel grid.

use vstd::prelude::*;

verus! {

/// A point with unsigned integer coordinates.
#[derive(Debug, Clone, Copy, PartialEq, Eq, PartialOrd, Ord, Structural)]
pub struct PointU32 {
    pub x: u32,
    pub y: u32,
}

impl PointU32 {
    pub fn new(x: u32, y: u32) -> (point: Self)
        ensures
            point == (PointU32 { x, y }),
    {
        PointU32 { x, y }
    }
}

/// Adds `n` to both coordinates. Neither sum may leave the range of `u32`.
impl core::ops::Add<u32> for PointU32 {
    type Output = PointU32;

    fn add(self, n: u32) -> (moved: PointU32) {
        PointU32 { x: self.x + n, y: self.y + n }
    }
}

impl vstd::std_specs::ops::AddSpecImpl<u32> for PointU32 {
    open spec fn obeys_add_spec() -> bool {
        true
    }

    open spec fn add_req(self, n: u32) -> bool {
        self.x + n <= u32::MAX && self.y + n <= u32::MAX
    }

    open spec fn add_spec(self, n: u32) -> PointU32 {
        PointU32 { x: (self.x + n) as u32, y: (self.y + n) as u32 }
    }
}

/// Takes `n` from both coordinates. Neither coordinate may be below `n`.
impl core::ops::Sub<u32> for PointU32 {
    type Output = PointU32;

    fn sub(self, n: u32) -> (moved: PointU32) {
        PointU32 { x: self.x - n, y: self.y - n }
    }
}

impl vstd::std_specs::ops::SubSpecImpl<u32> for PointU32 {
    open spec fn obeys_sub_spec() -> bool {
        true
    }

    open spec fn sub_req(self, n: u32) -> bool {
        self.x >= n && self.y >= n
    }

    open spec fn sub_spec(self, n: u32) -> PointU32 {
        PointU32 { x: (self.x - n) as u32, y: (self.y - n) as u32 }
    }
}

/// Multiplies both coordinates by `n`. Neither product may leave the range
/// of `u32`.
impl core::ops::Mul<u32> for PointU32 {
    type Output = PointU32;

    fn mul(self, n: u32) -> (scaled: PointU32) {
        PointU32 { x: self.x * n, y: self.y * n }
    }
}

impl vstd::std_specs::ops::MulSpecImpl<u32> for PointU32 {
    open spec fn obeys_mul_spec() -> bool {
        true
    }

    open spec fn mul_req(self, n: u32) -> bool {
        self.x * n <= u32::MAX && self.y * n <= u32::MAX
    }

    open spec fn mul_spec(self, n: u32) -> PointU32 {
        PointU32 { x: (self.x * n) as u32, y: (self.y * n) as u32 }
    }
}

/// Adding `n` and then taking `n` away gives the point back.
pub proof fn lemma_add_then_sub(point: PointU32, n: u32)
    requires
        vstd::std_specs::ops::AddSpec::add_req(point, n),
    ensures
        vstd::std_specs::ops::SubSpec::sub_req(vstd::std_specs::ops::AddSpec::add_spec(point, n), n),
        vstd::std_specs::ops::SubSpec::sub_spec(
            vstd::std_specs::ops::AddSpec::add_spec(point, n),
            n,
        ) == point,
{
}

} // verus!
