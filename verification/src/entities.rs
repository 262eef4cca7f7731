//! The mutable world state: particles owned by colonies, and the shared
//! food items every colony forages from.

use vstd::prelude::*;
use crate::params::{COORD_LIMIT, MAX_VELOCITY};
use crate::vec3::{in_box, Vec3Fx};

verus! {

/// One particle: its type, kinematic state, and owning colony.
#[derive(Clone, Copy, Debug, PartialEq, Eq, Structural)]
pub struct Particle {
    /// Particle type index, `0 .. type_count`.
    pub ptype: usize,
    /// Current position.
    pub position: Vec3Fx,
    /// Current velocity.
    pub velocity: Vec3Fx,
    /// Id of the owning colony; particles of different colonies never
    /// interact.
    pub colony: usize,
}

impl Particle {
    /// Positions stay within the coordinate limit and speeds within the
    /// velocity cap; the physics step preserves both.
    pub open spec fn wf(self) -> bool {
        &&& in_box(self.position, COORD_LIMIT as int)
        &&& in_box(self.velocity, MAX_VELOCITY as int)
    }
}

/// Lifecycle of one food item: `Active -> (collision) -> Hidden` when it
/// has a respawn timer (back to `Active` on expiry), or
/// `Active -> Consumed` permanently when it has none.
#[derive(Clone, Copy, Debug, PartialEq, Eq, Structural)]
pub enum FoodState {
    /// Visible and consumable.
    Active,
    /// Consumed, waiting out its respawn cooldown.
    Hidden,
    /// Consumed for good; single-use food only.
    Consumed,
}

/// One shared food item.
#[derive(Clone, Copy, Debug, PartialEq, Eq, Structural)]
pub struct Food {
    /// Where the item sits; it respawns in place.
    pub position: Vec3Fx,
    /// Score awarded to the colony that consumes it.
    pub value: i64,
    /// Cooldown before a consumed item reappears; `None` makes the item
    /// single-use.
    pub respawn: Option<i64>,
    /// Time left until a hidden item reappears.
    pub remaining: i64,
    /// Lifecycle state.
    pub state: FoodState,
}

impl Food {
    /// Position, value and timers stay within the fixed-point limits.
    pub open spec fn wf(self) -> bool {
        &&& in_box(self.position, COORD_LIMIT as int)
        &&& 0 <= self.value <= COORD_LIMIT
        &&& (self.respawn matches Some(c) ==> 0 <= c <= COORD_LIMIT)
        &&& 0 <= self.remaining <= COORD_LIMIT
    }
}

} // verus!
