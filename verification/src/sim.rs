use vstd::prelude::*;

use crate::constants::NUM_CELLS;
use crate::fluid::FluidParticle;
use crate::fluid::fluid_tick;
use crate::fluid::spec_fluid_tick;
use crate::gravity::GravityParticle;
use crate::gravity::gravity_tick;
use crate::gravity::spec_gravity_tick;
use crate::universe::Universe;
use crate::universe::empty_cell;
use crate::universe::handles_consistent;

verus! {

/// The whole simulation owned in one place: the grid and the live
/// particle records, with no hidden state. A host loop drives it one
/// frame at a time and keeps its renderer in sync through the visual
/// handles the operations report.
pub struct SimulationState {
    pub universe: Universe,
    pub grains: Vec<GravityParticle>,
    pub drops: Vec<FluidParticle>,
}

impl SimulationState {
    pub open spec fn wf(self) -> bool {
        &&& self.universe.wf()
        &&& forall|j: int| 0 <= j < self.grains@.len() ==> (#[trigger] self.grains@[j]).wf()
        &&& forall|j: int| 0 <= j < self.drops@.len() ==> (#[trigger] self.drops@[j]).wf()
    }

    pub fn new() -> (s: SimulationState)
        ensures
            s.wf(),
            s.grains@.len() == 0,
            s.drops@.len() == 0,
            forall|i: int| 0 <= i < NUM_CELLS ==> s.universe@[i] == empty_cell(),
    {
        SimulationState { universe: Universe::new(), grains: Vec::new(), drops: Vec::new() }
    }

    /// One simulated frame: the gravity pass first, then the fluid pass,
    /// in that fixed order. Returns the visual handles the fluid pass
    /// overwrote, for the caller to retire.
    pub fn tick(&mut self) -> (displaced: Vec<Option<u64>>)
        requires
            old(self).wf(),
        ensures
            final(self).wf(),
            ({
                let gt = spec_gravity_tick(old(self).universe@, old(self).grains@);
                let ft = spec_fluid_tick(gt.0, old(self).drops@);
                &&& final(self).universe@ == ft.0
                &&& final(self).grains@ == gt.1
                &&& final(self).drops@ == ft.1
                &&& displaced@ == ft.2
            }),
            handles_consistent(old(self).universe@) ==> handles_consistent(
                final(self).universe@,
            ),
    {
        gravity_tick(&mut self.universe, &mut self.grains);
        fluid_tick(&mut self.universe, &mut self.drops)
    }
}

} // verus!
