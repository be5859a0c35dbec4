//! Navigation decisions of the AI traffic: each plane loiters over one of three
//! waypoints, then flies to a different one and loiters there.

use vstd::prelude::*;
use rand::rngs::StdRng;
use crate::random::draw_usize;

verus! {

/// Number of waypoints the traffic flies between.
pub const WAYPOINT_COUNT: usize = 3;

/// Whether a plane circles its waypoint or flies to the next one.
#[derive(Clone, Copy, Debug, PartialEq, Eq, Structural)]
pub enum NavState {
    Loiter,
    Transit,
}

/// Where an AI plane is going.
#[derive(Clone, Copy, Debug, PartialEq, Eq, Structural)]
pub struct NavPlan {
    pub nav_state: NavState,
    /// waypoint the plane loiters over, or left from
    pub current_wp: usize,
    /// waypoint the plane flies to (the current one while loitering)
    pub target_wp: usize,
}

impl NavPlan {
    /// Both waypoints exist; a loitering plane targets its own waypoint and a plane in
    /// transit a different one.
    pub open spec fn wf(self) -> bool {
        &&& self.current_wp < WAYPOINT_COUNT
        &&& self.target_wp < WAYPOINT_COUNT
        &&& (self.nav_state == NavState::Loiter) == (self.target_wp == self.current_wp)
    }

    /// A plane loitering over a waypoint drawn from `rng`.
    pub fn new(rng: &mut StdRng) -> (r: Self)
        ensures
            r.wf(),
            r.nav_state == NavState::Loiter,
    {
        let wp = draw_usize(rng, 0, WAYPOINT_COUNT);
        NavPlan { nav_state: NavState::Loiter, current_wp: wp, target_wp: wp }
    }

    /// Loitering is over: fly to one of the other two waypoints, drawn from `rng`.
    pub fn begin_transit(&mut self, rng: &mut StdRng)
        requires
            old(self).wf(),
            old(self).nav_state == NavState::Loiter,
        ensures
            final(self).wf(),
            final(self).nav_state == NavState::Transit,
            final(self).current_wp == old(self).current_wp,
            final(self).target_wp != old(self).current_wp,
    {
        let draw = draw_usize(rng, 0, WAYPOINT_COUNT - 1);
        self.target_wp = next_waypoint(self.current_wp, draw);
        self.nav_state = NavState::Transit;
    }

    /// The plane reached its target: loiter over it.
    pub fn arrive(&mut self)
        requires
            old(self).wf(),
        ensures
            final(self).wf(),
            final(self).nav_state == NavState::Loiter,
            final(self).current_wp == old(self).target_wp,
            final(self).target_wp == old(self).target_wp,
    {
        self.current_wp = self.target_wp;
        self.nav_state = NavState::Loiter;
    }
}

/// The waypoint a plane at `current` goes to for the draw `d` among the two others.
pub open spec fn waypoint_for(current: int, d: int) -> int {
    if d >= current {
        d + 1
    } else {
        d
    }
}

/// The waypoint a plane at `current` flies to for the draw `draw` among the two others:
/// the draw, skipping over the current waypoint.
pub fn next_waypoint(current: usize, draw: usize) -> (r: usize)
    requires
        current < WAYPOINT_COUNT,
        draw < WAYPOINT_COUNT - 1,
    ensures
        r == waypoint_for(current as int, draw as int),
        r < WAYPOINT_COUNT,
        r != current,
{
    if draw >= current {
        draw + 1
    } else {
        draw
    }
}

/// Every waypoint other than `current` is the next one for exactly one draw, so the
/// other two are equally likely.
pub proof fn next_waypoint_covers_others(current: int, target: int)
    requires
        0 <= current < WAYPOINT_COUNT,
        0 <= target < WAYPOINT_COUNT,
        target != current,
    ensures
        exists|d: int| 0 <= d < WAYPOINT_COUNT - 1 && #[trigger] waypoint_for(current, d) == target,
        forall|d1: int, d2: int|
            0 <= d1 < WAYPOINT_COUNT - 1 && 0 <= d2 < WAYPOINT_COUNT - 1 && #[trigger] waypoint_for(
                current,
                d1,
            ) == target && #[trigger] waypoint_for(current, d2) == target ==> d1 == d2,
{
    let d = if target > current { target - 1 } else { target };
    assert(waypoint_for(current, d) == target);
}

} // verus!
