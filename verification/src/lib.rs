//! A 2D falling-sand sandbox engine: a bounded grid of material cells, a
//! square brush that selects cells to paint or erase, and per-tick update
//! rules that let solid particles fall and slide and let fluids flow
//! downward and disperse sideways.
//!
//! The grid is the single source of truth for what occupies each
//! coordinate; rendering and input live outside and talk to it through
//! plain values (integer coordinates and opaque visual-handle numbers).

use vstd::prelude::*;

mod brush;
mod components;
mod constants;
mod fluid;
mod gravity;
mod place;
mod sim;
mod universe;

pub use brush::Brush;
pub use brush::BrushSize;
pub use brush::get_brush_locations;
pub use brush::spec_brush_delta;
pub use components::Fluid;
pub use components::Gravity;
pub use components::Particle;
pub use components::Velocity;
pub use constants::BOUNDARY;
pub use constants::GRAVITY;
pub use constants::NUM_CELLS;
pub use constants::TERMINAL_VELOCITY;
pub use constants::THINNING_CHANCE;
pub use constants::WATER_DISPERSION;
pub use fluid::FluidParticle;
pub use fluid::fluid_step;
pub use fluid::fluid_tick;
pub use fluid::spec_fluid_target;
pub use gravity::GravityParticle;
pub use gravity::gravity_step;
pub use gravity::gravity_tick;
pub use gravity::spec_gravity_target;
pub use gravity::spec_next_velocity;
pub use place::PlaceOutcome;
pub use place::apply_brush;
pub use place::erase_cell;
pub use place::paint_cell;
pub use place::paint_cell_random;
pub use sim::SimulationState;
pub use universe::Cell;
pub use universe::GridError;
pub use universe::Universe;
pub use universe::boundary_coordinates;
pub use universe::cell_at;
pub use universe::empty_cell;
pub use universe::handles_consistent;
pub use universe::in_bounds;
pub use universe::in_world;
pub use universe::spec_index_from_xy;
pub use universe::spec_move_cell;

verus! {

/// The closed set of substances a cell can hold. `Empty` marks a free
/// cell, `Foundation` an immovable boundary wall, `Stone` an immovable
/// placed solid, `Sand` a gravity-bound solid, and `Water` a fluid.
#[derive(Clone, Copy, Debug, PartialEq, Eq, Structural)]
pub enum Element {
    Empty,
    Foundation,
    Sand,
    Stone,
    Water,
}

impl Element {
    /// Whether particles of this element fall under gravity.
    pub fn is_gravity_bound(&self) -> (r: bool)
        ensures
            r == (self is Sand),
    {
        match self {
            Element::Sand => true,
            _ => false,
        }
    }

    /// Whether particles of this element flow as a fluid.
    pub fn is_fluid(&self) -> (r: bool)
        ensures
            r == (self is Water),
    {
        match self {
            Element::Water => true,
            _ => false,
        }
    }

    /// Whether a brush stroke of this element is stochastically thinned
    /// so that painted areas get a sparse, textured edge.
    pub fn is_thinned(&self) -> (r: bool)
        ensures
            r == (self is Sand),
    {
        match self {
            Element::Sand => true,
            _ => false,
        }
    }
}

/// The element currently selected for painting.
pub struct Placing(pub Element);

} // verus!
