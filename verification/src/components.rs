use vstd::prelude::*;

use crate::Element;

verus! {

/// A live particle: the element it is made of.
pub struct Particle(pub Element);

/// Marker for particles that fall under gravity.
pub struct Gravity;

/// A fluid particle's lateral reach: how far it probes left or right for
/// a free cell each tick.
pub struct Fluid {
    pub dispersion: u8,
}

/// Vertical velocity of a gravity-bound particle, in cells per tick;
/// negative is downward.
pub struct Velocity(pub i32);

} // verus!
