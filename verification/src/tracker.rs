//! Tracks the protagonist's position and a one-frame finite-difference
//! velocity estimate, refreshed once per frame before any AI reads it.

use vstd::prelude::*;
use crate::vec2::{Vec2I, in_bounds, in_world, tdiv, div_trunc};

verus! {

/// Last-known target position (milli-units) and estimated velocity
/// (units/s).  When the protagonist is absent the tracker retains its last
/// known values rather than degrading.
#[derive(Clone, Copy, Debug, PartialEq, Eq, Structural)]
pub struct PlayerTracker {
    /// Current target position.
    pub position: Vec2I,
    /// Estimated target velocity (current minus previous position, divided
    /// by the frame delta).
    pub velocity: Vec2I,
    /// Previous frame position, for the velocity estimate.
    pub prev_position: Vec2I,
    /// Whether at least one frame has been observed.
    pub initialized: bool,
}

/// Positions and the velocity estimate stay inside the arithmetic bounds.
pub open spec fn tracker_wf(t: PlayerTracker) -> bool {
    &&& in_world(t.position)
    &&& in_bounds(t.velocity)
    &&& in_world(t.prev_position)
}

impl PlayerTracker {
    /// A tracker that has seen nothing yet: everything at the origin.
    pub fn new() -> (t: PlayerTracker)
        ensures
            tracker_wf(t),
            t.position == (Vec2I { x: 0, y: 0 }),
            t.velocity == (Vec2I { x: 0, y: 0 }),
            !t.initialized,
    {
        PlayerTracker {
            position: Vec2I { x: 0, y: 0 },
            velocity: Vec2I { x: 0, y: 0 },
            prev_position: Vec2I { x: 0, y: 0 },
            initialized: false,
        }
    }

    /// Per-frame refresh.  With a sighting, the position is taken over and —
    /// once a previous frame exists and the delta is positive — the velocity
    /// becomes the finite difference of the two positions over the delta.
    /// Without a sighting (the protagonist absent, e.g. between lives)
    /// everything is retained unchanged.
    pub fn update(&mut self, sighting: Option<Vec2I>, dt: i64)
        requires
            tracker_wf(*old(self)),
            0 <= dt <= 1_000_000,
            sighting is Some ==> in_world(sighting->0),
        ensures
            tracker_wf(*final(self)),
            sighting is None ==> *final(self) == *old(self),
            sighting matches Some(p) ==> {
                &&& final(self).position == p
                &&& final(self).prev_position == p
                &&& final(self).initialized
                &&& (old(self).initialized && dt > 0) ==> final(self).velocity == (Vec2I {
                    x: tdiv((p.x - old(self).prev_position.x) as int, dt as int) as i64,
                    y: tdiv((p.y - old(self).prev_position.y) as int, dt as int) as i64,
                })
                &&& !(old(self).initialized && dt > 0) ==> final(self).velocity == old(
                    self,
                ).velocity
            },
    {
        match sighting {
            Some(p) => {
                if self.initialized && dt > 0 {
                    let dx = p.x - self.prev_position.x;
                    let dy = p.y - self.prev_position.y;
                    let vx = div_trunc(dx, dt);
                    let vy = div_trunc(dy, dt);
                    proof {
                        crate::vec2::lemma_tdiv_shrinks(dx as int, dt as int);
                        crate::vec2::lemma_tdiv_shrinks(dy as int, dt as int);
                    }
                    self.velocity = Vec2I { x: vx, y: vy };
                }
                self.prev_position = p;
                self.position = p;
                self.initialized = true;
            },
            None => {},
        }
    }
}

} // verus!
