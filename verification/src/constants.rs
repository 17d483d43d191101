use vstd::prelude::*;

verus! {

/// Position of the boundary walls: a coordinate is inside the world iff
/// both of its axes are strictly below this in magnitude.
pub const BOUNDARY: i32 = 65;

/// Number of placeable cells inside the boundary: the square of
/// `2 * BOUNDARY - 1`.
pub const NUM_CELLS: usize = 16641;

/// Per-tick change of a falling particle's vertical velocity.
pub const GRAVITY: i32 = -1;

/// Largest magnitude the vertical velocity may reach.
pub const TERMINAL_VELOCITY: i32 = 3;

/// Lateral probe distance for newly placed water particles.
pub const WATER_DISPERSION: u8 = 3;

/// Chance, in draws out of 100, that a thinned brush stroke places a
/// particle at a given coordinate.
pub const THINNING_CHANCE: u32 = 80;

} // verus!
