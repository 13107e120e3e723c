//! Per-run simulation configuration.

use vstd::prelude::*;

verus! {

/// Probabilities are expressed in thousandths: 0 never fires, 1000 always.
pub const CHANCE_SCALE: u32 = 1000;

/// Immutable-per-run configuration of a simulation.
///
/// The four chance fields are probabilities in thousandths, each applied
/// once per tick to gate one stochastic sub-process.
#[derive(Clone, Copy, Debug, PartialEq, Eq, Structural)]
pub struct SimulationParams {
    pub interaction_chance: u32,
    pub reproduction_chance: u32,
    pub hunger_tick_chance: u32,
    pub ambition_tick_chance: u32,
    pub simulation_duration: u32,
    pub initial_population: u32,
}

impl SimulationParams {
    /// Every chance is a probability, so it must not exceed the scale.
    pub open spec fn wf(self) -> bool {
        self.interaction_chance <= CHANCE_SCALE
            && self.reproduction_chance <= CHANCE_SCALE
            && self.hunger_tick_chance <= CHANCE_SCALE
            && self.ambition_tick_chance <= CHANCE_SCALE
    }
}

impl Default for SimulationParams {
    /// The documented default configuration.
    fn default() -> (r: Self)
        ensures
            r.interaction_chance == 350,
            r.reproduction_chance == 200,
            r.hunger_tick_chance == 200,
            r.ambition_tick_chance == 200,
            r.simulation_duration == 100,
            r.initial_population == 10,
            r.wf(),
    {
        SimulationParams {
            interaction_chance: 350,
            reproduction_chance: 200,
            hunger_tick_chance: 200,
            ambition_tick_chance: 200,
            simulation_duration: 100,
            initial_population: 10,
        }
    }
}

} // verus!
