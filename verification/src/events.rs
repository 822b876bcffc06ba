//! The closed set of notifications the simulation emits.  Each variant
//! carries the literal fields needed to reconstruct the transition without
//! re-reading full state.

use vstd::prelude::*;

verus! {

/// A significant event produced by a tick or a command.
#[derive(Clone, Debug)]
pub enum FluidEvent {
    /// A new concept has been injected into the fluid.
    ConceptInjected { id: u128, name: String, density: i64, layer: i64 },
    /// A concept has broken through the surface into action.
    SurfaceBreakthrough { id: u128, name: String, kinetic_energy: i64 },
    /// A concept bounced off the surface for want of energy.
    SurfaceBounce { id: u128, name: String, kinetic_energy: i64, required: i64 },
    /// A concept has evaporated into a permanent character trait.
    ConceptEvaporated { id: u128, name: String, trait_formed: String, integration: i64 },
    /// The fluid has frozen around a dominant concept.
    Freeze { concept_id: u128, concept_name: String },
    /// The freeze has been broken.
    Thaw,
    /// Turbulence has begun.
    TurbulenceOnset { reynolds_number: i64, energy: i64 },
    /// Turbulence has subsided.
    TurbulenceSubsided,
    /// A heavy concept has deposited ore after cycling through a vent.
    Mineralization {
        concept_name: String,
        ore_name: String,
        ore_type: String,
        depth: i64,
        vent_cycles: u32,
        integration_value: i64,
    },
    /// Ore has been deposited, contributing to tectonic pressure.
    OreDeposited { name: String, ore_type: String, total_pressure: i64, threshold: i64 },
    /// A benthic expedition has catalyzed a solution from an ore.
    OreCatalysis { problem: String, ore: String, solution: String, reactivity: i64 },
    /// A tectonic shift has created a new continent.
    TectonicShift {
        continent_name: String,
        depth_range_top: i64,
        depth_range_bottom: i64,
        ores_consumed: Vec<String>,
        total_integration: i64,
    },
    /// A new core truth (vent) has been added.
    CoreTruthFormed { name: String, depth: i64, heat_output: i64, radius: i64 },
    /// A core truth has been strengthened by an encounter.
    CoreTruthStrengthened { name: String, heat_output: i64, activation_count: u32 },
    /// A character trait has precipitated a new concept.
    Precipitation { trait_name: String, new_concept: String, inherited_integration: i64 },
    /// Flash heal has diluted salinity.
    FlashHeal { concepts_added: usize, old_salinity: i64, new_salinity: i64 },
    /// Deep breath applied damping.
    DeepBreath { strength: i64 },
    /// Ballast applied for a benthic expedition.
    BenthicExpedition { concept_id: u128, concept_name: String, ballast_amount: i64 },
    /// A division experiment has started.
    DivisionExperimentStarted {
        experiment_id: u128,
        dividend: i64,
        divisor: i64,
        bubble_count: usize,
        node_count: usize,
    },
    /// A division experiment has completed.
    DivisionExperimentComplete {
        dividend: i64,
        divisor: i64,
        quotient: i64,
        remainder: i64,
        is_divisible: bool,
        turbulence_energy: i64,
        reynolds_number: i64,
        ticks_to_settle: u64,
    },
    /// A consensus experiment has started.
    ConsensusExperimentStarted {
        experiment_id: u128,
        position_a: String,
        position_b: String,
        heat_a: i64,
        heat_b: i64,
        probe_count: usize,
    },
    /// Consensus ore has crystallized from contradictory vents.
    ConsensusOreCrystallized {
        ore_id: u128,
        name: String,
        ore_type: String,
        position_a: String,
        position_b: String,
        certainty: i64,
        quality: String,
        insight: Option<String>,
        crystallization_time: u64,
    },
    /// A phase transition froze the probe field and extracted structure.
    PhaseTransition {
        experiment_id: u128,
        trigger_jitter: i64,
        material_name: String,
        vent_a_territory: i64,
        vent_b_territory: i64,
        contested_territory: i64,
        collision_boundary: i64,
        emergent_property_count: usize,
    },
}

} // verus!
