//! The command contract and the per-tick decision logic of the scheduler.
//!
//! Commands are the closed set of external intents; `process_command`
//! applies one to the stores and returns the resulting events together
//! with the reply value for commands that owe the caller one.  The
//! transport layer validates all numeric parameters before submission, so
//! the ranges here are preconditions, not checks.

use vstd::prelude::*;

verus! {

use crate::concept::Concept;
use crate::consensus_reactor::{ConsensusOre, ConsensusReactor};
use crate::events::FluidEvent;
use crate::fixed::{
    clamped, div_tz, fadd, fclamp, fdiv, fdivi, fmax, fmul, fx_add, fx_div, fx_mul, fx_ok,
    fx_sub, MAG, SCALE,
};
use crate::fluid::{concept_index, ConceptFluid};
use crate::text::{copied, joined_counted};

/// Derive a concept's drag area from the volume and density a caller
/// submitted: the quotient clamped to `[0.1, 2.0]`, or twice the volume
/// when the density is too small to divide by.
pub fn derive_area(volume: i64, density: i64) -> (r: i64)
    requires
        0 <= volume <= 2_000_000,
        0 <= density <= SCALE,
    ensures
        r == (if density > 10_000 {
            clamped(fx_div(volume as int, density as int), 100_000, 2_000_000)
        } else {
            fx_mul(volume as int, 2_000_000)
        }),
        0 <= r <= 4_000_000,
{
    if density > 10_000 {
        fclamp(fdiv(volume, density), 100_000, 2_000_000)
    } else {
        let r = fmul(volume, 2_000_000);
        proof {
            crate::fixed::lemma_fx_mul_nonneg(volume as int, 2_000_000);
            assert(volume as int * 2_000_000 <= 2_000_000 * 2_000_000) by (nonlinear_arith)
                requires volume as int <= 2_000_000;
            assert(div_tz(volume as int * 2_000_000, SCALE as int) <= 4_000_000)
                by (nonlinear_arith)
                requires 0 <= volume as int * 2_000_000 <= 2_000_000 * 2_000_000;
        }
        r
    }
}

/// A deliberate external intervention in the fluid.
pub enum Command {
    /// Inject a new concept.
    Inject { name: String, density: i64, area: i64 },
    /// Apply ballast to force a benthic descent.
    Ballast { concept_id: u128, weight_delta: i64 },
    /// Modulate a concept's buoyancy.
    ModulateBuoyancy { concept_id: u128, delta: i64 },
    /// Change the tectonic pressure threshold.
    TriggerTectonic { pressure_threshold: i64 },
    /// Thaw a frozen fluid.
    Thaw,
    /// Apply deep-breath damping.
    DeepBreath { strength: i64 },
    /// Add a core truth (vent).
    AddCoreTruth { name: String, heat_output: i64, depth: i64, radius: i64 },
    /// Flash heal with fresh concepts.
    FlashHeal { concepts: Vec<(String, i64, i64)>, dilution_strength: i64 },
    /// Precipitate a new concept from a character trait.
    Precipitate { trait_index: usize, new_concept_name: String, density: i64, area: i64 },
    /// Start a division experiment.
    StartDivisionExperiment { dividend: i64, divisor: i64, salinity_boost: i64 },
    /// Start a consensus experiment between two contradictory positions.
    StartConsensusExperiment { position_a: String, heat_a: i64, position_b: String, heat_b: i64 },
}

impl Command {
    /// The parameter ranges the transport layer guarantees.
    pub open spec fn wf(self) -> bool {
        match self {
            Command::Inject { density, area, .. } => 0 <= density <= SCALE && 0 <= area <= MAG,
            Command::Ballast { weight_delta, .. } => 0 <= weight_delta <= MAG,
            Command::ModulateBuoyancy { delta, .. } => -SCALE <= delta <= SCALE,
            Command::TriggerTectonic { pressure_threshold } => 0 < pressure_threshold <= MAG,
            Command::Thaw => true,
            Command::DeepBreath { strength } => 0 <= strength <= SCALE,
            Command::AddCoreTruth { heat_output, depth, radius, .. } => {
                &&& 0 <= heat_output <= MAG
                &&& 0 <= depth <= SCALE
                &&& 0 < radius <= SCALE
            },
            Command::FlashHeal { concepts, dilution_strength } => {
                &&& 0 <= dilution_strength <= SCALE
                &&& forall|i: int| 0 <= i < concepts@.len() ==> {
                    &&& 0 <= (#[trigger] concepts@[i]).1 <= SCALE
                    &&& 0 <= concepts@[i].2 <= MAG
                }
            },
            Command::Precipitate { density, area, .. } => 0 <= density <= SCALE && 0 <= area
                <= MAG,
            Command::StartDivisionExperiment { dividend, divisor, salinity_boost } => {
                &&& 1 <= dividend <= 100_000_000
                &&& 1 <= divisor <= 20_000_000
                &&& 0 <= salinity_boost <= 10_000_000
            },
            Command::StartConsensusExperiment { heat_a, heat_b, .. } => {
                &&& 0 <= heat_a <= MAG
                &&& 0 <= heat_b <= MAG
            },
        }
    }
}

/// The reply the thaw intent owes its caller: whether anything was
/// frozen, with the matching status line.
pub struct ThawResponse {
    pub status: String,
    pub was_frozen: bool,
}

impl ThawResponse {
    /// Describe the outcome of a thaw.
    pub fn new(was_frozen: bool) -> (r: ThawResponse)
        ensures
            r.was_frozen == was_frozen,
            was_frozen ==> r.status@ == "Freeze broken - fluid thawing"@,
            !was_frozen ==> r.status@ == "Fluid was not frozen"@,
    {
        let status = if was_frozen {
            copied("Freeze broken - fluid thawing")
        } else {
            copied("Fluid was not frozen")
        };
        ThawResponse { status, was_frozen }
    }
}

/// Apply one command to the stores.  A command whose target no longer
/// exists is a no-op; commands that owe the caller a result (injection
/// and experiment starts) return the fresh identifier.
pub fn process_command(
    fluid: &mut ConceptFluid,
    reactor: &mut ConsensusReactor,
    cmd: Command,
) -> (r: (Vec<FluidEvent>, Option<u128>))
    requires
        old(fluid).wf(),
        old(reactor).wf(),
        cmd.wf(),
    ensures
        final(fluid).wf(),
        final(reactor).wf(),
        (r.1 is Some) == (cmd matches Command::Inject { .. } || cmd
            matches Command::StartDivisionExperiment { .. } || cmd
            matches Command::StartConsensusExperiment { .. }),
        (cmd matches Command::Inject { name, density, area } ==> ({
                    let c = final(fluid).concepts@.last();
                    &&& final(fluid).concepts@.len() == old(fluid).concepts@.len() + 1
                    &&& c.name == name
                    &&& c.density == density
                    &&& c.buoyancy == density
                    &&& c.layer == density
                    &&& c.velocity == 0
                    &&& c.area == area
                    &&& r.1 == Some(c.id)
                    &&& (forall|i: int| 0 <= i < old(fluid).concepts@.len()
                        ==> #[trigger] final(fluid).concepts@[i] == old(fluid).concepts@[i])
                    &&& *final(fluid) == (ConceptFluid {
                        concepts: final(fluid).concepts,
                        ..*old(fluid)
                    })
                    &&& *final(reactor) == *old(reactor)
                    &&& r.0@.len() == 1
                    &&& (r.0@[0] matches FluidEvent::ConceptInjected {
                        id,
                        name: event_name,
                        density: event_density,
                        layer,
                    } && id == c.id && event_name@ == name@ && event_density == density && layer
                        == density)
                })),
        (cmd matches Command::Ballast { concept_id, weight_delta } ==> ({
                    let found = concept_index(old(fluid).concepts@, concept_id) >= 0;
                    &&& (!found ==> *final(fluid) == *old(fluid) && r.0@.len() == 0)
                    &&& (found ==> {
                        let i = concept_index(old(fluid).concepts@, concept_id);
                        &&& final(fluid).concepts@ == old(fluid).concepts@.update(
                            i,
                            (Concept { ballast: weight_delta, ..old(fluid).concepts@[i] }),
                        )
                        &&& *final(fluid) == (ConceptFluid {
                            concepts: final(fluid).concepts,
                            ..*old(fluid)
                        })
                        &&& r.0@.len() == 1
                        &&& (r.0@[0] matches FluidEvent::BenthicExpedition {
                            concept_id: event_id,
                            concept_name,
                            ballast_amount,
                        } && event_id == concept_id && concept_name@
                            == old(fluid).concepts@[i].name@ && ballast_amount == weight_delta)
                    })
                    &&& *final(reactor) == *old(reactor)
                })),
        (cmd matches Command::ModulateBuoyancy { concept_id, delta } ==> ({
                    let found = concept_index(old(fluid).concepts@, concept_id) >= 0;
                    &&& (!found ==> *final(fluid) == *old(fluid))
                    &&& (found ==> {
                        let i = concept_index(old(fluid).concepts@, concept_id);
                        let c = old(fluid).concepts@[i];
                        let eff = fx_mul(delta as int, fx_sub(SCALE as int, c.density as int));
                        &&& final(fluid).concepts@ == old(fluid).concepts@.update(
                            i,
                            (Concept {
                                buoyancy: clamped(c.buoyancy + eff, 0, SCALE as int) as i64,
                                velocity: fx_add(c.velocity as int, fx_mul(eff, 2_000_000)) as i64,
                                ..c
                            }),
                        )
                        &&& *final(fluid) == (ConceptFluid {
                            concepts: final(fluid).concepts,
                            ..*old(fluid)
                        })
                    })
                    &&& *final(reactor) == *old(reactor)
                    &&& r.0@.len() == 0
                })),
        (cmd matches Command::TriggerTectonic { pressure_threshold } ==> ({
                    &&& *final(fluid) == (ConceptFluid { pressure_threshold, ..*old(fluid) })
                    &&& *final(reactor) == *old(reactor)
                    &&& r.0@.len() == 0
                })),
        (cmd matches Command::Thaw ==> ({
                    &&& !final(fluid).is_frozen
                    &&& final(fluid).frozen_concept is None
                    &&& (!old(fluid).is_frozen ==> *final(fluid) == *old(fluid) && r.0@.len() == 0)
                    &&& (old(fluid).is_frozen ==> r.0@.len() == 1 && (r.0@[0]
                        matches FluidEvent::Thaw) && (forall|i: int|
                        0 <= i < final(fluid).concepts@.len() ==> !(
                        #[trigger] final(fluid).concepts@[i]).is_frozen))
                    &&& *final(reactor) == *old(reactor)
                })),
        (cmd matches Command::DeepBreath { strength } ==> ({
                    &&& final(fluid).damping_factor == strength
                    &&& final(fluid).turbulence_energy == (if old(fluid).is_turbulent {
                        fx_mul(
                            old(fluid).turbulence_energy as int,
                            fx_sub(SCALE as int, strength as int),
                        )
                    } else {
                        0int
                    })
                    &&& *final(fluid) == (ConceptFluid {
                        damping_factor: strength,
                        turbulence_energy: final(fluid).turbulence_energy,
                        ..*old(fluid)
                    })
                    &&& *final(reactor) == *old(reactor)
                    &&& r.0@.len() == 1
                    &&& (r.0@[0] matches FluidEvent::DeepBreath { strength: s2 } && s2 == strength)
                })),
        (cmd matches Command::AddCoreTruth { name, heat_output, depth, radius } ==> ({
                    let t = final(fluid).core_truths@.last();
                    &&& final(fluid).core_truths@.len() == old(fluid).core_truths@.len() + 1
                    &&& t.name == name
                    &&& t.heat_output == heat_output
                    &&& t.depth == depth
                    &&& t.radius == radius
                    &&& *final(fluid) == (ConceptFluid {
                        core_truths: final(fluid).core_truths,
                        ..*old(fluid)
                    })
                    &&& *final(reactor) == *old(reactor)
                    &&& r.0@.len() == 1
                    &&& (r.0@[0] matches FluidEvent::CoreTruthFormed {
                        name: event_name,
                        depth: event_depth,
                        heat_output: event_heat,
                        radius: event_radius,
                    } && event_name@ == name@ && event_depth == depth && event_heat == heat_output
                        && event_radius == radius)
                })),
        (cmd matches Command::FlashHeal { concepts, dilution_strength } ==> ({
                    &&& final(fluid).salinity == fx_mul(
                        old(fluid).salinity as int,
                        fx_sub(SCALE as int, dilution_strength as int),
                    )
                    &&& !final(fluid).is_frozen
                    &&& final(fluid).concepts@.len() == old(fluid).concepts@.len()
                        + concepts@.len()
                    &&& *final(reactor) == *old(reactor)
                    &&& r.0@.len() == 1
                    &&& (r.0@[0] matches FluidEvent::FlashHeal {
                        concepts_added,
                        old_salinity,
                        new_salinity,
                    } && concepts_added == concepts@.len() && old_salinity == old(fluid).salinity
                        && new_salinity == final(fluid).salinity)
                })),
        (cmd matches Command::Precipitate { trait_index, new_concept_name, density, area } ==> ({
                    &&& (trait_index >= old(fluid).atmosphere@.len() ==> *final(fluid) == *old(
                        fluid,
                    ) && r.0@.len() == 0)
                    &&& (trait_index < old(fluid).atmosphere@.len() ==> {
                        let inherited = fx_mul(
                            old(fluid).atmosphere@[trait_index as int].integration as int,
                            300_000,
                        );
                        let c = final(fluid).concepts@.last();
                        &&& final(fluid).concepts@.len() == old(fluid).concepts@.len() + 1
                        &&& c.name == new_concept_name
                        &&& c.density == density
                        &&& c.layer == SCALE
                        &&& c.velocity == 500_000
                        &&& c.integration == inherited
                        &&& r.0@.len() == 1
                        &&& (r.0@[0] matches FluidEvent::Precipitation {
                            trait_name,
                            new_concept,
                            inherited_integration,
                        } && trait_name@ == old(fluid).atmosphere@[trait_index as int].name@
                            && new_concept@ == new_concept_name@ && inherited_integration
                            == inherited)
                    })
                    &&& *final(reactor) == *old(reactor)
                })),
        (cmd matches Command::StartDivisionExperiment { dividend, divisor, salinity_boost } ==> ({
                    &&& final(fluid).active_experiment is Some
                    &&& (final(fluid).active_experiment matches Some(e) ==> {
                        &&& e.problem.dividend == dividend
                        &&& e.problem.divisor == divisor
                        &&& r.1 == Some(e.problem.id)
                        &&& e.bubble_ids@.len() == dividend as int / (SCALE as int)
                        &&& e.salinity_boost == salinity_boost
                    })
                    &&& final(fluid).salinity == fx_add(
                        old(fluid).salinity as int,
                        salinity_boost as int,
                    )
                    &&& !final(fluid).is_turbulent
                    &&& *final(reactor) == *old(reactor)
                    &&& r.0@.len() == 1
                    &&& (r.0@[0] matches FluidEvent::DivisionExperimentStarted {
                        dividend: event_dividend,
                        divisor: event_divisor,
                        ..
                    } && event_dividend == dividend && event_divisor == divisor)
                })),
        (cmd matches Command::StartConsensusExperiment { heat_a, heat_b, .. } ==> ({
                    &&& final(reactor).active_experiment is Some
                    &&& (final(reactor).active_experiment matches Some(e) ==> {
                        &&& e.vent_a.heat_output == heat_a
                        &&& e.vent_b.heat_output == heat_b
                        &&& e.start_tick == old(fluid).tick_count
                        &&& r.1 == Some(e.id)
                        &&& e.probe_ids@.len() == 8
                    })
                    &&& final(fluid).concepts@.len() == old(fluid).concepts@.len() + 8
                    &&& (forall|i: int| 0 <= i < old(fluid).concepts@.len()
                        ==> #[trigger] final(fluid).concepts@[i] == old(fluid).concepts@[i])
                    &&& (forall|k: int|
                        old(fluid).concepts@.len() <= k < final(fluid).concepts@.len() ==> {
                            &&& (#[trigger] final(fluid).concepts@[k]).density == 500_000
                            &&& final(fluid).concepts@[k].area == 300_000
                            &&& final(fluid).concepts@[k].layer == 500_000
                        })
                    &&& r.0@.len() == 1
                    &&& (r.0@[0] matches FluidEvent::ConsensusExperimentStarted {
                        heat_a: event_heat_a,
                        heat_b: event_heat_b,
                        probe_count,
                        ..
                    } && event_heat_a == heat_a && event_heat_b == heat_b && probe_count == 8)
                })),
{
    match cmd {
        Command::Inject { name, density, area } => {
            let event_name = copied(name.as_str());
            let id = fluid.add_concept(name, density, area);
            let mut events: Vec<FluidEvent> = Vec::new();
            events.push(
                FluidEvent::ConceptInjected { id, name: event_name, density, layer: density },
            );
            (events, Some(id))
        },
        Command::Ballast { concept_id, weight_delta } => {
            let mut events: Vec<FluidEvent> = Vec::new();
            proof {
                crate::fluid::lemma_concept_index(fluid.concepts@, concept_id);
            }
            let name = match fluid.get_concept(concept_id) {
                Some(c) => Some(copied(c.name.as_str())),
                None => None,
            };
            match name {
                Some(concept_name) => {
                    let applied = fluid.benthic_expedition(concept_id, weight_delta);
                    if applied {
                        events.push(
                            FluidEvent::BenthicExpedition {
                                concept_id,
                                concept_name,
                                ballast_amount: weight_delta,
                            },
                        );
                    }
                },
                None => {},
            }
            (events, None)
        },
        Command::ModulateBuoyancy { concept_id, delta } => {
            proof {
                crate::fluid::lemma_concept_index(fluid.concepts@, concept_id);
            }
            fluid.modulate_buoyancy(concept_id, delta);
            (Vec::new(), None)
        },
        Command::TriggerTectonic { pressure_threshold } => {
            fluid.set_pressure_threshold(pressure_threshold);
            (Vec::new(), None)
        },
        Command::Thaw => {
            let mut events: Vec<FluidEvent> = Vec::new();
            if fluid.thaw() {
                events.push(FluidEvent::Thaw);
            }
            (events, None)
        },
        Command::DeepBreath { strength } => {
            fluid.deep_breath(strength);
            let mut events: Vec<FluidEvent> = Vec::new();
            events.push(FluidEvent::DeepBreath { strength });
            (events, None)
        },
        Command::AddCoreTruth { name, heat_output, depth, radius } => {
            let event_name = copied(name.as_str());
            fluid.add_core_truth(name, heat_output, depth, radius);
            let mut events: Vec<FluidEvent> = Vec::new();
            events.push(FluidEvent::CoreTruthFormed { name: event_name, depth, heat_output, radius });
            (events, None)
        },
        Command::FlashHeal { concepts, dilution_strength } => {
            let count = concepts.len();
            let old_salinity = fluid.flash_heal(concepts, dilution_strength);
            let mut events: Vec<FluidEvent> = Vec::new();
            events.push(
                FluidEvent::FlashHeal {
                    concepts_added: count,
                    old_salinity,
                    new_salinity: fluid.salinity,
                },
            );
            (events, None)
        },
        Command::Precipitate { trait_index, new_concept_name, density, area } => {
            let mut events: Vec<FluidEvent> = Vec::new();
            let trait_name = if trait_index < fluid.atmosphere.len() {
                Some(copied(fluid.atmosphere[trait_index].name.as_str()))
            } else {
                None
            };
            let event_concept_name = copied(new_concept_name.as_str());
            let outcome = fluid.precipitate(trait_index, new_concept_name, density, area);
            match outcome {
                Some(p) => {
                    match trait_name {
                        Some(tn) => {
                            events.push(
                                FluidEvent::Precipitation {
                                    trait_name: tn,
                                    new_concept: event_concept_name,
                                    inherited_integration: p.1,
                                },
                            );
                        },
                        None => {},
                    }
                },
                None => {},
            }
            (events, None)
        },
        Command::StartDivisionExperiment { dividend, divisor, salinity_boost } => {
            let id = fluid.start_division_experiment_with_salinity(
                dividend,
                divisor,
                salinity_boost,
            );
            let mut events: Vec<FluidEvent> = Vec::new();
            match fluid.get_experiment_status() {
                Some(exp) => {
                    events.push(
                        FluidEvent::DivisionExperimentStarted {
                            experiment_id: id,
                            dividend,
                            divisor,
                            bubble_count: exp.bubble_ids.len(),
                            node_count: exp.wave.node_count(),
                        },
                    );
                },
                None => {},
            }
            (events, Some(id))
        },
        Command::StartConsensusExperiment { position_a, heat_a, position_b, heat_b } => {
            let event_a = copied(position_a.as_str());
            let event_b = copied(position_b.as_str());
            let tick = fluid.tick_count;
            let id = reactor.start_experiment(position_a, heat_a, position_b, heat_b, tick);
            let ghost started = reactor.active_experiment->0;
            let ghost post_start = *reactor;
            let ghost base_fluid = *fluid;
            let mut probe_count: usize = 0;
            let mut i: usize = 0;
            while i < 8
                invariant
                    fluid.wf(),
                    reactor.wf(),
                    i <= 8,
                    probe_count == i,
                    reactor.active_experiment matches Some(e2) && e2.probe_ids@.len() == i && e2
                        == (crate::consensus_reactor::ConsensusExperiment {
                        probe_ids: e2.probe_ids,
                        ..started
                    }),
                    *reactor == (ConsensusReactor {
                        active_experiment: reactor.active_experiment,
                        ..post_start
                    }),
                    fluid.concepts@.len() == base_fluid.concepts@.len() + i,
                    forall|j: int| 0 <= j < base_fluid.concepts@.len()
                        ==> #[trigger] fluid.concepts@[j] == base_fluid.concepts@[j],
                    forall|k: int|
                        base_fluid.concepts@.len() <= k < fluid.concepts@.len() ==> {
                            &&& (#[trigger] fluid.concepts@[k]).density == 500_000
                            &&& fluid.concepts@[k].area == 300_000
                            &&& fluid.concepts@[k].layer == 500_000
                        },
                    *fluid == (ConceptFluid { concepts: fluid.concepts, ..base_fluid }),
                decreases 8 - i,
            {
                let probe_name = joined_counted("probe", "_", i as u64);
                let probe_id = fluid.add_concept(probe_name, 500_000, 300_000);
                reactor.register_probe(probe_id);
                probe_count = probe_count + 1;
                i = i + 1;
            }
            let mut events: Vec<FluidEvent> = Vec::new();
            events.push(
                FluidEvent::ConsensusExperimentStarted {
                    experiment_id: id,
                    position_a: event_a,
                    position_b: event_b,
                    heat_a,
                    heat_b,
                    probe_count,
                },
            );
            (events, Some(id))
        },
    }
}

/// The signed saturating sum of the velocities of the listed probes that
/// are present in the store.
pub open spec fn probe_velocity_sum(cs: Seq<Concept>, ids: Seq<u128>) -> int
    decreases ids.len(),
{
    if ids.len() == 0 {
        0
    } else {
        let rest = probe_velocity_sum(cs, ids.drop_last());
        let i = concept_index(cs, ids.last());
        if i >= 0 {
            fx_add(rest, cs[i].velocity as int)
        } else {
            rest
        }
    }
}

/// How many of the listed probes are present in the store (saturating).
pub open spec fn probe_found_count(cs: Seq<Concept>, ids: Seq<u128>) -> int
    decreases ids.len(),
{
    if ids.len() == 0 {
        0
    } else {
        let rest = probe_found_count(cs, ids.drop_last());
        if concept_index(cs, ids.last()) >= 0 && rest < i64::MAX {
            rest + 1
        } else {
            rest
        }
    }
}

/// The mean probe velocity the reactor records this tick.
pub open spec fn mean_probe_velocity(cs: Seq<Concept>, ids: Seq<u128>) -> int {
    let found = probe_found_count(cs, ids);
    div_tz(probe_velocity_sum(cs, ids), if found >= 1 { found } else { 1 })
}

/// Service the consensus reactor for one tick: record the mean probe
/// velocity and fresh probe snapshots, fire the phase transition when its
/// moment comes, and advance the crystallization check.  Returns the
/// events produced and the crystallized ore, if any.
pub fn service_consensus(
    fluid: &ConceptFluid,
    reactor: &mut ConsensusReactor,
    current_tick: u64,
) -> (r: (Vec<FluidEvent>, Option<ConsensusOre>))
    requires
        fluid.wf(),
        old(reactor).wf(),
    ensures
        final(reactor).wf(),
        old(reactor).active_experiment is None ==> r.1 is None && r.0@.len() == 0
            && *final(reactor) == *old(reactor),
        old(reactor).active_experiment matches Some(e) ==> {
            &&& final(reactor).ore_deposits@.len() == old(reactor).ore_deposits@.len() + (
            if r.1 is Some {
                1int
            } else {
                0int
            })
            &&& ((r.1 is Some) ==> final(reactor).active_experiment is None)
            &&& (r.1 matches Some(ore) ==> {
                &&& crate::consensus_reactor::ore_like(final(reactor).ore_deposits@.last(), ore)
                &&& 1 <= ore.certainty <= SCALE
                &&& ore.accumulated_jitter >= e.accumulated_jitter
                &&& ore.vent_a == e.vent_a.position
                &&& ore.vent_b == e.vent_b.position
                &&& r.0@.len() >= 1
                &&& (r.0@.last() matches FluidEvent::ConsensusOreCrystallized {
                    ore_id,
                    certainty,
                    crystallization_time,
                    ..
                } && ore_id == ore.id && certainty == ore.certainty && crystallization_time
                    == ore.crystallization_time)
            })
            &&& ((r.1 is None) ==> {
                &&& final(reactor).active_experiment matches Some(e2)
                &&& e2.velocity_history@.len() >= 1
                &&& e2.velocity_history@.last() == mean_probe_velocity(
                    fluid.concepts@,
                    e.probe_ids@,
                )
                &&& e2.accumulated_jitter >= e.accumulated_jitter
                &&& e2.peak_jitter >= e.peak_jitter
            })
        },
{
    let mut events: Vec<FluidEvent> = Vec::new();
    let mut probe_ids: Vec<u128> = Vec::new();
    let active = match reactor.get_experiment() {
        Some(exp) => {
            let mut k: usize = 0;
            while k < exp.probe_ids.len()
                invariant
                    k <= exp.probe_ids@.len(),
                    probe_ids@ == exp.probe_ids@.take(k as int),
                decreases exp.probe_ids@.len() - k,
            {
                probe_ids.push(exp.probe_ids[k]);
                proof {
                    assert(probe_ids@ =~= exp.probe_ids@.take(k + 1 as int));
                }
                k = k + 1;
            }
            proof {
                assert(probe_ids@ =~= exp.probe_ids@);
            }
            true
        },
        None => false,
    };
    proof {
        if old(reactor).active_experiment is Some {
            assert(probe_ids@ == old(reactor).active_experiment->0.probe_ids@);
        }
    }
    if !active {
        return (events, None);
    }
    let mut velocity_sum: i64 = 0;
    let mut found: i64 = 0;
    let mut k: usize = 0;
    while k < probe_ids.len()
        invariant
            fluid.wf(),
            reactor.wf(),
            k <= probe_ids@.len(),
            velocity_sum == probe_velocity_sum(fluid.concepts@, probe_ids@.take(k as int)),
            found == probe_found_count(fluid.concepts@, probe_ids@.take(k as int)),
            fx_ok(velocity_sum),
            0 <= found,
        decreases probe_ids@.len() - k,
    {
        proof {
            assert(probe_ids@.take(k + 1 as int).drop_last() =~= probe_ids@.take(k as int));
            assert(probe_ids@.take(k + 1 as int).last() == probe_ids@[k as int]);
        }
        let id = probe_ids[k];
        match fluid.get_concept(id) {
            Some(c) => {
                proof {
                    crate::fluid::lemma_concept_index(fluid.concepts@, id);
                }
                velocity_sum = fadd(velocity_sum, c.velocity);
                if found < i64::MAX {
                    found = found + 1;
                }
            },
            None => {},
        }
        k = k + 1;
    }
    proof {
        assert(probe_ids@.take(probe_ids@.len() as int) =~= probe_ids@);
    }
    let mean_velocity = fdivi(velocity_sum, fmax(found, 1));
    let ghost before_record = *reactor;
    reactor.record_velocity(mean_velocity);
    let ghost after_record = *reactor;
    let mut k2: usize = 0;
    while k2 < probe_ids.len()
        invariant
            fluid.wf(),
            reactor.wf(),
            k2 <= probe_ids@.len(),
            reactor.active_experiment matches Some(e2) && after_record.active_experiment
                matches Some(e1) && e2 == (crate::consensus_reactor::ConsensusExperiment {
                probe_snapshots: e2.probe_snapshots,
                ..e1
            }),
            *reactor == (ConsensusReactor {
                active_experiment: reactor.active_experiment,
                ..after_record
            }),
        decreases probe_ids@.len() - k2,
    {
        let id = probe_ids[k2];
        let snapshot = match fluid.get_concept(id) {
            Some(c) => {
                proof {
                    crate::fluid::lemma_concept_index(fluid.concepts@, id);
                }
                Some((c.layer, c.velocity))
            },
            None => None,
        };
        match snapshot {
            Some(sv) => {
                let room = match reactor.get_experiment() {
                    Some(exp) => exp.probe_snapshots.len() < SCALE as usize,
                    None => false,
                };
                if room {
                    reactor.record_probe_snapshot(id, sv.0, sv.1);
                }
            },
            None => {},
        }
        k2 = k2 + 1;
    }
    let fired = reactor.maybe_phase_transition(current_tick);
    if fired {
        match reactor.get_experiment() {
            Some(exp) => {
                match &exp.phase_structure {
                    Some(ps) => {
                        events.push(
                            FluidEvent::PhaseTransition {
                                experiment_id: exp.id,
                                trigger_jitter: ps.trigger_jitter,
                                material_name: copied(ps.material_name.as_str()),
                                vent_a_territory: ps.vent_a_territory,
                                vent_b_territory: ps.vent_b_territory,
                                contested_territory: ps.contested_territory,
                                collision_boundary: ps.collision_boundary,
                                emergent_property_count: ps.emergent_properties.len(),
                            },
                        );
                    },
                    None => {},
                }
            },
            None => {},
        }
    }
    let ghost before_update = *reactor;
    let crystallized = reactor.update(current_tick);
    proof {
        if before_update.active_experiment is Some {
            let eb = before_update.active_experiment->0;
            crate::fixed::lemma_fx_add_mono(
                eb.accumulated_jitter as int,
                crate::consensus_reactor::current_jitter_of(eb.velocity_history@),
            );
        }
    }
    match &crystallized {
        Some(ore) => {
            events.push(
                FluidEvent::ConsensusOreCrystallized {
                    ore_id: ore.id,
                    name: copied(ore.name.as_str()),
                    ore_type: copied(ore.ore_type.as_str()),
                    position_a: copied(ore.vent_a.as_str()),
                    position_b: copied(ore.vent_b.as_str()),
                    certainty: ore.certainty,
                    quality: copied(ore.quality()),
                    insight: match &ore.insight {
                        Some(s) => Some(copied(s.as_str())),
                        None => None,
                    },
                    crystallization_time: ore.crystallization_time,
                },
            );
        },
        None => {},
    }
    (events, crystallized)
}

/// One full scheduler tick over both stores: run the physics update,
/// service the consensus reactor, and check division settlement,
/// returning every event in order.
pub fn simulation_tick(
    fluid: &mut ConceptFluid,
    reactor: &mut ConsensusReactor,
    dt: i64,
) -> (r: Vec<FluidEvent>)
    requires
        old(fluid).wf(),
        old(reactor).wf(),
        0 < dt <= SCALE,
    ensures
        final(fluid).wf(),
        final(reactor).wf(),
        final(fluid).tick_count == (if old(fluid).tick_count < u64::MAX {
            old(fluid).tick_count + 1
        } else {
            old(fluid).tick_count as int
        }),
        final(fluid).total_integration >= old(fluid).total_integration,
        final(fluid).atmosphere@.len() >= old(fluid).atmosphere@.len(),
        final(fluid).continents@.len() >= old(fluid).continents@.len(),
        old(reactor).active_experiment is None ==> *final(reactor) == *old(reactor),
        old(reactor).active_experiment matches Some(e) ==> {
            let grown = final(reactor).ore_deposits@.len()
                > old(reactor).ore_deposits@.len();
            &&& final(reactor).ore_deposits@.len() <= old(reactor).ore_deposits@.len() + 1
            &&& final(reactor).ore_deposits@.len() >= old(reactor).ore_deposits@.len()
            &&& (grown ==> final(reactor).active_experiment is None
                && 1 <= final(reactor).ore_deposits@.last().certainty <= SCALE)
            &&& (!grown ==> (final(reactor).active_experiment matches Some(e2)
                && e2.accumulated_jitter >= e.accumulated_jitter))
        },
        old(fluid).experiment_results == final(fluid).experiment_results || {
            &&& final(fluid).experiment_results@.len() == old(
                fluid,
            ).experiment_results@.len() + 1
            &&& final(fluid).active_experiment is None
            &&& ({
                let res = final(fluid).experiment_results@.last();
                &&& r@.len() >= 1
                &&& (r@.last() matches FluidEvent::DivisionExperimentComplete {
                    dividend,
                    divisor,
                    quotient,
                    remainder,
                    is_divisible,
                    ..
                } && dividend == res.dividend && divisor == res.divisor && quotient
                    == res.quotient && remainder == res.remainder && is_divisible
                    == res.is_divisible)
            })
        },
{
    let mut events = fluid.update(dt);
    let tick = fluid.tick_count;
    let (mut consensus_events, _crystallized) = service_consensus(fluid, reactor, tick);
    events.append(&mut consensus_events);
    let settlement = fluid.check_experiment_settlement();
    match settlement {
        Some(result) => {
            events.push(
                FluidEvent::DivisionExperimentComplete {
                    dividend: result.dividend,
                    divisor: result.divisor,
                    quotient: result.quotient,
                    remainder: result.remainder,
                    is_divisible: result.is_divisible,
                    turbulence_energy: result.turbulence_energy,
                    reynolds_number: result.reynolds_number,
                    ticks_to_settle: result.ticks_to_settle,
                },
            );
        },
        None => {},
    }
    events
}

} // verus!
