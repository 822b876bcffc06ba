//! The entity store and tick integrator: all concepts, vents, ores,
//! continents and traits, the physics parameters, and the fixed-timestep
//! update that moves everything forward.

use vstd::prelude::*;

verus! {

use crate::concept::Concept;
use crate::continent::Continent;
use crate::core_truth::CoreTruth;
use crate::events::FluidEvent;
use crate::fixed::{
    clamped, div_tz, fabs, fadd, fclamp, fclamp01, fdiv, fdivi, fhalf, fmax, fmin, fmul, fneg,
    fsqrt, fsub, fx_add, fx_div, fx_mul, fx_ok, fx_sub, mag, osc, osc_at, sqrt_tz, MAG, SCALE,
};
use crate::ids::fresh_id;
use crate::ore::{OreType, PreciousOre};
use crate::standing_wave::{
    mean_of, sigma_of, whole_quotient, whole_remainder, DivisionExperiment, DivisionProblem,
    DivisionResult, StandingWave,
};
use crate::text::{copied, joined_counted};
use crate::traits::CharacterTrait;

/// The index of the first concept carrying `id`, or `-1` if none does.
pub open spec fn concept_index(s: Seq<Concept>, id: u128) -> int
    decreases s.len(),
{
    if s.len() == 0 {
        -1
    } else if s[0].id == id {
        0
    } else {
        let t = concept_index(s.skip(1), id);
        if t < 0 { -1 } else { t + 1 }
    }
}

/// `concept_index` finds exactly the first matching concept.
pub proof fn lemma_concept_index(s: Seq<Concept>, id: u128)
    ensures
        concept_index(s, id) >= 0 ==> {
            &&& concept_index(s, id) < s.len()
            &&& s[concept_index(s, id)].id == id
            &&& forall|j: int| 0 <= j < concept_index(s, id) ==> (#[trigger] s[j]).id != id
        },
        concept_index(s, id) < 0 ==> forall|j: int| 0 <= j < s.len() ==> (#[trigger] s[j]).id
            != id,
    decreases s.len(),
{
    if s.len() > 0 && s[0].id != id {
        let tail = s.skip(1);
        let t = concept_index(tail, id);
        lemma_concept_index(tail, id);
        if t >= 0 {
            assert(tail[t] == s[t + 1]);
            assert forall|j: int| 0 <= j < t + 1 implies (#[trigger] s[j]).id != id by {
                if j > 0 {
                    assert(tail[j - 1] == s[j]);
                }
            }
        } else {
            assert forall|j: int| 0 <= j < s.len() implies (#[trigger] s[j]).id != id by {
                if j > 0 {
                    assert(tail[j - 1] == s[j]);
                }
            }
        }
    }
}

/// The main container for the fluid simulation: entities, tracking state
/// and physics parameters.
pub struct ConceptFluid {
    /// Every concept in the fluid, in insertion order.
    pub concepts: Vec<Concept>,
    /// Evaporated concepts turned permanent traits (the "atmosphere").
    pub atmosphere: Vec<CharacterTrait>,
    /// Deep-sea vents: radiating foundational beliefs.
    pub core_truths: Vec<CoreTruth>,
    /// Mineralized transformations on the ocean floor.
    pub ore_deposits: Vec<PreciousOre>,
    /// Permanent landmasses.
    pub continents: Vec<Continent>,
    /// Total ore weight pressing on the floor; non-negative.
    pub ocean_floor_pressure: i64,
    /// Critical pressure for a tectonic shift; positive.
    pub pressure_threshold: i64,
    /// How many times the bedrock has shifted.
    pub tectonic_shifts: u32,
    /// Fluid viscosity; positive.
    pub viscosity: i64,
    /// Drag coefficient; non-negative.
    pub drag_coefficient: i64,
    /// Threshold energy for breaking through the surface; non-negative.
    pub surface_tension: i64,
    /// Layer depth where surface tension applies; positive.
    pub activation_zone: i64,
    /// Seconds at the surface before a freeze; non-negative.
    pub freeze_threshold: i64,
    /// Layer depth counted as "at the surface" for freezing.
    pub freeze_zone: i64,
    /// Is the fluid frozen around one concept?
    pub is_frozen: bool,
    /// Which concept holds the freeze.
    pub frozen_concept: Option<u128>,
    /// Reynolds number at which turbulence begins; positive.
    pub reynolds_threshold: i64,
    /// Is the fluid in the turbulent state?
    pub is_turbulent: bool,
    /// Current turbulence energy; zero whenever not turbulent.
    pub turbulence_energy: i64,
    /// Fraction of turbulence energy lost per second.
    pub turbulence_decay: i64,
    /// Active damping strength (a "deep breath").
    pub damping_factor: i64,
    /// System-wide accumulated integration; never decreases in a tick.
    pub total_integration: i64,
    /// Integration needed for a concept to evaporate.
    pub evaporation_threshold: i64,
    /// Layer depth below which evaporation can happen.
    pub evaporation_zone: i64,
    /// Accumulated knowledge density; non-negative.
    pub salinity: i64,
    /// How fast integration raises salinity.
    pub salinity_rate: i64,
    /// Number of layers used for visual bucketing.
    pub num_layers: usize,
    /// Total simulation ticks so far.
    pub tick_count: u64,
    /// Active standing waves (division experiments).
    pub standing_waves: Vec<StandingWave>,
    /// The running division experiment, if any.
    pub active_experiment: Option<DivisionExperiment>,
    /// Completed division results.
    pub experiment_results: Vec<DivisionResult>,
    /// Viscosity at rest, before shear thinning.
    pub base_viscosity: i64,
    /// How strongly viscosity drops under shear.
    pub shear_thinning_coefficient: i64,
    /// Speed above which shear thinning activates.
    pub shear_threshold: i64,
}

impl ConceptFluid {
    /// At most one concept is frozen; the global flag holds exactly when
    /// one is; the recorded identifier names a frozen concept.
    pub open spec fn freeze_wf(self) -> bool {
        &&& forall|i: int, j: int|
            0 <= i < self.concepts@.len() && 0 <= j < self.concepts@.len()
                && (#[trigger] self.concepts@[i]).is_frozen && (
            #[trigger] self.concepts@[j]).is_frozen ==> i == j
        &&& (self.is_frozen <==> exists|i: int|
            0 <= i < self.concepts@.len() && (#[trigger] self.concepts@[i]).is_frozen)
        &&& (self.is_frozen <==> self.frozen_concept is Some)
        &&& (self.frozen_concept matches Some(id) ==> exists|i: int|
            0 <= i < self.concepts@.len() && (#[trigger] self.concepts@[i]).is_frozen
                && self.concepts@[i].id == id)
    }

    /// Every entity and parameter is inside its documented band, the
    /// freeze bookkeeping is consistent, and turbulence energy is zero
    /// whenever the fluid is laminar.
    pub open spec fn wf(self) -> bool {
        &&& forall|i: int| 0 <= i < self.concepts@.len()
            ==> (#[trigger] self.concepts@[i]).wf()
        &&& forall|i: int| 0 <= i < self.atmosphere@.len()
            ==> (#[trigger] self.atmosphere@[i]).wf()
        &&& forall|i: int| 0 <= i < self.core_truths@.len()
            ==> (#[trigger] self.core_truths@[i]).wf()
        &&& forall|i: int| 0 <= i < self.ore_deposits@.len()
            ==> (#[trigger] self.ore_deposits@[i]).wf()
        &&& forall|i: int| 0 <= i < self.continents@.len()
            ==> (#[trigger] self.continents@[i]).wf()
        &&& 0 <= self.ocean_floor_pressure <= MAG
        &&& 0 < self.pressure_threshold <= MAG
        &&& 1 <= self.viscosity <= MAG
        &&& 0 <= self.drag_coefficient <= MAG
        &&& 0 <= self.surface_tension <= MAG
        &&& 1 <= self.activation_zone <= SCALE
        &&& 0 <= self.freeze_threshold <= MAG
        &&& 0 <= self.freeze_zone <= SCALE
        &&& self.freeze_wf()
        &&& 1 <= self.reynolds_threshold <= MAG
        &&& 0 <= self.turbulence_energy <= MAG
        &&& (!self.is_turbulent ==> self.turbulence_energy == 0)
        &&& 0 <= self.turbulence_decay <= SCALE
        &&& 0 <= self.damping_factor <= SCALE
        &&& 0 <= self.total_integration <= MAG
        &&& 0 <= self.evaporation_threshold <= MAG
        &&& 0 <= self.evaporation_zone <= SCALE
        &&& 0 <= self.salinity <= MAG
        &&& 0 <= self.salinity_rate <= SCALE
        &&& forall|i: int| 0 <= i < self.standing_waves@.len()
            ==> (#[trigger] self.standing_waves@[i]).wf()
        &&& (self.active_experiment matches Some(e) ==> e.wf())
        &&& 1 <= self.base_viscosity <= MAG
        &&& 0 <= self.shear_thinning_coefficient <= MAG
        &&& 0 <= self.shear_threshold <= MAG
    }

    /// Create a fluid with the given physics parameters and no entities.
    pub fn new(
        viscosity: i64,
        drag_coefficient: i64,
        surface_tension: i64,
        activation_zone: i64,
        freeze_threshold: i64,
        freeze_zone: i64,
        reynolds_threshold: i64,
        turbulence_decay: i64,
        num_layers: usize,
        evaporation_threshold: i64,
        evaporation_zone: i64,
    ) -> (r: ConceptFluid)
        requires
            1 <= viscosity <= MAG,
            0 <= drag_coefficient <= MAG,
            0 <= surface_tension <= MAG,
            1 <= activation_zone <= SCALE,
            0 <= freeze_threshold <= MAG,
            0 <= freeze_zone <= SCALE,
            1 <= reynolds_threshold <= MAG,
            0 <= turbulence_decay <= SCALE,
            0 <= evaporation_threshold <= MAG,
            0 <= evaporation_zone <= SCALE,
        ensures
            r.wf(),
            r.concepts@.len() == 0,
            r.atmosphere@.len() == 0,
            r.core_truths@.len() == 0,
            r.ore_deposits@.len() == 0,
            r.continents@.len() == 0,
            r.ocean_floor_pressure == 0,
            r.pressure_threshold == 15 * SCALE,
            r.tectonic_shifts == 0,
            r.viscosity == viscosity,
            r.drag_coefficient == drag_coefficient,
            r.surface_tension == surface_tension,
            r.activation_zone == activation_zone,
            r.freeze_threshold == freeze_threshold,
            r.freeze_zone == freeze_zone,
            !r.is_frozen,
            r.frozen_concept is None,
            r.reynolds_threshold == reynolds_threshold,
            !r.is_turbulent,
            r.turbulence_energy == 0,
            r.turbulence_decay == turbulence_decay,
            r.damping_factor == 0,
            r.total_integration == 0,
            r.evaporation_threshold == evaporation_threshold,
            r.evaporation_zone == evaporation_zone,
            r.salinity == 0,
            r.salinity_rate == 100_000,
            r.num_layers == num_layers,
            r.tick_count == 0,
            r.standing_waves@.len() == 0,
            r.active_experiment is None,
            r.experiment_results@.len() == 0,
            r.base_viscosity == viscosity,
            r.shear_thinning_coefficient == 800_000,
            r.shear_threshold == 300_000,
    {
        ConceptFluid {
            concepts: Vec::new(),
            atmosphere: Vec::new(),
            core_truths: Vec::new(),
            ore_deposits: Vec::new(),
            continents: Vec::new(),
            ocean_floor_pressure: 0,
            pressure_threshold: 15 * SCALE,
            tectonic_shifts: 0,
            viscosity,
            drag_coefficient,
            surface_tension,
            activation_zone,
            freeze_threshold,
            freeze_zone,
            is_frozen: false,
            frozen_concept: None,
            reynolds_threshold,
            is_turbulent: false,
            turbulence_energy: 0,
            turbulence_decay,
            damping_factor: 0,
            total_integration: 0,
            evaporation_threshold,
            evaporation_zone,
            salinity: 0,
            salinity_rate: 100_000,
            num_layers,
            tick_count: 0,
            standing_waves: Vec::new(),
            active_experiment: None,
            experiment_results: Vec::new(),
            base_viscosity: viscosity,
            shear_thinning_coefficient: 800_000,
            shear_threshold: 300_000,
        }
    }

    /// A fluid with the default parameters.
    pub fn default() -> (r: ConceptFluid)
        ensures
            r.wf(),
            r.concepts@.len() == 0,
            r.atmosphere@.len() == 0,
            r.core_truths@.len() == 0,
            r.ore_deposits@.len() == 0,
            r.continents@.len() == 0,
            r.ocean_floor_pressure == 0,
            r.pressure_threshold == 15 * SCALE,
            r.tectonic_shifts == 0,
            r.viscosity == 500_000,
            r.drag_coefficient == 1_200_000,
            r.surface_tension == 50_000,
            r.activation_zone == 100_000,
            r.freeze_threshold == 2_000_000,
            r.freeze_zone == 50_000,
            !r.is_frozen,
            r.frozen_concept is None,
            r.reynolds_threshold == 1_000_000,
            !r.is_turbulent,
            r.turbulence_energy == 0,
            r.turbulence_decay == 300_000,
            r.damping_factor == 0,
            r.total_integration == 0,
            r.evaporation_threshold == 1_000_000,
            r.evaporation_zone == 300_000,
            r.salinity == 0,
            r.salinity_rate == 100_000,
            r.num_layers == 5,
            r.tick_count == 0,
            r.standing_waves@.len() == 0,
            r.active_experiment is None,
            r.experiment_results@.len() == 0,
            r.base_viscosity == 500_000,
            r.shear_thinning_coefficient == 800_000,
            r.shear_threshold == 300_000,
    {
        Self::new(
            500_000,
            1_200_000,
            50_000,
            100_000,
            2_000_000,
            50_000,
            1_000_000,
            300_000,
            5,
            1_000_000,
            300_000,
        )
    }

    /// What the shear-thinning model makes of a speed: full viscosity
    /// below the shear threshold, a thinned viscosity (by at most ninety
    /// percent) above it.
    pub open spec fn spec_effective_viscosity(self, velocity: int) -> int {
        let shear_rate = mag(velocity);
        if shear_rate <= self.shear_threshold {
            self.viscosity as int
        } else {
            let excess = fx_sub(shear_rate, self.shear_threshold as int);
            let scaled = fx_mul(self.shear_thinning_coefficient as int, excess);
            let capped = if scaled <= 900_000 { scaled } else { 900_000 };
            fx_mul(self.viscosity as int, fx_sub(SCALE as int, capped))
        }
    }

    /// Effective viscosity under the shear-thinning model.
    pub fn effective_viscosity(&self, velocity: i64) -> (r: i64)
        requires
            self.wf(),
            fx_ok(velocity),
        ensures
            r == self.spec_effective_viscosity(velocity as int),
            fx_ok(r),
    {
        let shear_rate = fabs(velocity);
        if shear_rate <= self.shear_threshold {
            self.viscosity
        } else {
            let excess = fsub(shear_rate, self.shear_threshold);
            let scaled = fmul(self.shear_thinning_coefficient, excess);
            let capped = fmin(scaled, 900_000);
            fmul(self.viscosity, fsub(SCALE, capped))
        }
    }

    /// Inject a new concept: it enters at rest with its layer and
    /// buoyancy equal to its density, and gets a fresh identifier.
    pub fn add_concept(&mut self, name: String, density: i64, area: i64) -> (r: u128)
        requires
            old(self).wf(),
            0 <= density <= SCALE,
            0 <= area <= MAG,
        ensures
            final(self).wf(),
            final(self).concepts@.len() == old(self).concepts@.len() + 1,
            ({
                let c = final(self).concepts@.last();
                &&& c.id == r
                &&& c.name == name
                &&& c.density == density
                &&& c.buoyancy == density
                &&& c.layer == density
                &&& c.velocity == 0
                &&& c.area == area
                &&& !c.is_frozen
                &&& !c.has_broken_surface
                &&& !c.has_evaporated
                &&& c.integration == 0
                &&& c.time_at_surface == 0
            }),
            forall|i: int| 0 <= i < old(self).concepts@.len()
                ==> #[trigger] final(self).concepts@[i] == old(self).concepts@[i],
            *final(self) == (ConceptFluid { concepts: final(self).concepts, ..*old(self) }),
    {
        let id = fresh_id();
        let concept = Concept::new(id, name, density, area);
        let ghost c = concept;
        self.concepts.push(concept);
        proof {
            freeze_wf_after_push(*old(self), *self, c);
        }
        id
    }

    /// Add a core truth (deep-sea vent).
    pub fn add_core_truth(&mut self, name: String, heat_output: i64, depth: i64, radius: i64)
        requires
            old(self).wf(),
            0 <= heat_output <= MAG,
            0 <= depth <= SCALE,
            0 < radius <= SCALE,
        ensures
            final(self).wf(),
            final(self).core_truths@.len() == old(self).core_truths@.len() + 1,
            ({
                let t = final(self).core_truths@.last();
                &&& t.name == name
                &&& t.heat_output == heat_output
                &&& t.depth == depth
                &&& t.radius == radius
                &&& t.activation_count == 0
            }),
            forall|i: int| 0 <= i < old(self).core_truths@.len()
                ==> #[trigger] final(self).core_truths@[i] == old(self).core_truths@[i],
            *final(self) == (ConceptFluid { core_truths: final(self).core_truths, ..*old(self) }),
    {
        let core_truth = CoreTruth::new(name, heat_output, depth, radius);
        self.core_truths.push(core_truth);
        proof {
            freeze_wf_unchanged(*old(self), *self);
        }
    }

    /// The first concept carrying `id`, if any.
    pub fn get_concept(&self, id: u128) -> (r: Option<&Concept>)
        ensures
            (r is Some) <==> concept_index(self.concepts@, id) >= 0,
            r matches Some(c) ==> *c == self.concepts@[concept_index(self.concepts@, id)],
    {
        proof {
            lemma_concept_index(self.concepts@, id);
        }
        let n = self.concepts.len();
        let mut k: usize = 0;
        while k < n
            invariant
                n == self.concepts@.len(),
                k <= n,
                forall|j: int| 0 <= j < k ==> (#[trigger] self.concepts@[j]).id != id,
            decreases n - k,
        {
            if self.concepts[k].id == id {
                proof {
                    lemma_concept_index(self.concepts@, id);
                }
                return Some(&self.concepts[k]);
            }
            k = k + 1;
        }
        None
    }

    /// Ballast a concept for a benthic expedition; says whether the
    /// concept exists.
    pub fn benthic_expedition(&mut self, concept_id: u128, ballast_amount: i64) -> (r: bool)
        requires
            old(self).wf(),
            0 <= ballast_amount <= MAG,
        ensures
            final(self).wf(),
            r == (concept_index(old(self).concepts@, concept_id) >= 0),
            r ==> final(self).concepts@ == old(self).concepts@.update(
                concept_index(old(self).concepts@, concept_id),
                (Concept {
                    ballast: ballast_amount,
                    ..old(self).concepts@[concept_index(old(self).concepts@, concept_id)]
                }),
            ),
            !r ==> final(self).concepts@ == old(self).concepts@,
            *final(self) == (ConceptFluid { concepts: final(self).concepts, ..*old(self) }),
    {
        let n = self.concepts.len();
        let mut k: usize = 0;
        while k < n
            invariant
                old(self).wf(),
                *self == *old(self),
                0 <= ballast_amount <= MAG,
                n == self.concepts@.len(),
                k <= n,
                forall|j: int| 0 <= j < k ==> (#[trigger] self.concepts@[j]).id != concept_id,
            decreases n - k,
        {
            if self.concepts[k].id == concept_id {
                proof {
                    concept_found_is_first(old(self).concepts@, concept_id, k as int);
                }
                let c = &mut self.concepts[k];
                c.ballast = ballast_amount;
                proof {
                    freeze_wf_after_update(
                        *old(self),
                        *self,
                        k as int,
                    );
                }
                return true;
            }
            k = k + 1;
        }
        proof {
            lemma_concept_index(old(self).concepts@, concept_id);
        }
        false
    }

    /// Nudge a concept's buoyancy: the delta is damped by the concept's
    /// density, the buoyancy clamped to the unit band, and an immediate
    /// velocity impulse of twice the effective delta applied.
    pub fn modulate_buoyancy(&mut self, id: u128, delta: i64)
        requires
            old(self).wf(),
            -SCALE <= delta <= SCALE,
        ensures
            final(self).wf(),
            concept_index(old(self).concepts@, id) < 0 ==> *final(self) == *old(self),
            concept_index(old(self).concepts@, id) >= 0 ==> {
                let i = concept_index(old(self).concepts@, id);
                let c = old(self).concepts@[i];
                let eff = fx_mul(delta as int, fx_sub(SCALE as int, c.density as int));
                &&& final(self).concepts@ == old(self).concepts@.update(
                    i,
                    (Concept {
                        buoyancy: clamped(c.buoyancy + eff, 0, SCALE as int) as i64,
                        velocity: fx_add(c.velocity as int, fx_mul(eff, 2_000_000)) as i64,
                        ..c
                    }),
                )
                &&& *final(self) == (ConceptFluid { concepts: final(self).concepts, ..*old(self) })
            },
    {
        let n = self.concepts.len();
        let mut k: usize = 0;
        while k < n
            invariant
                old(self).wf(),
                *self == *old(self),
                -SCALE <= delta <= SCALE,
                n == self.concepts@.len(),
                k <= n,
                forall|j: int| 0 <= j < k ==> (#[trigger] self.concepts@[j]).id != id,
            decreases n - k,
        {
            if self.concepts[k].id == id {
                proof {
                    concept_found_is_first(old(self).concepts@, id, k as int);
                }
                let density = self.concepts[k].density;
                let effective_delta = fmul(delta, fsub(SCALE, density));
                proof {
                    crate::fixed::lemma_fx_mul_units(
                        delta as int,
                        fx_sub(SCALE as int, density as int),
                    );
                }
                let c = &mut self.concepts[k];
                c.buoyancy = fclamp01(fadd(c.buoyancy, effective_delta));
                c.velocity = fadd(c.velocity, fmul(effective_delta, 2_000_000));
                proof {
                    freeze_wf_after_update(*old(self), *self, k as int);
                }
                return ;
            }
            k = k + 1;
        }
        proof {
            lemma_concept_index(old(self).concepts@, id);
        }
    }

    /// Apply active damping: set the damping factor and bleed turbulence
    /// energy by the given strength at once.
    pub fn deep_breath(&mut self, strength: i64)
        requires
            old(self).wf(),
            0 <= strength <= SCALE,
        ensures
            final(self).wf(),
            final(self).damping_factor == strength,
            final(self).turbulence_energy == if old(self).is_turbulent {
                fx_mul(old(self).turbulence_energy as int, fx_sub(SCALE as int, strength as int))
            } else {
                0int
            },
            *final(self) == (ConceptFluid {
                damping_factor: strength,
                turbulence_energy: final(self).turbulence_energy,
                ..*old(self)
            }),
    {
        self.damping_factor = strength;
        if self.is_turbulent {
            let kept = fsub(SCALE, strength);
            let energy = self.turbulence_energy;
            let e = fmul(energy, kept);
            proof {
                assert(energy as int * (kept as int) >= 0) by (nonlinear_arith)
                    requires
                        0 <= energy as int,
                        0 <= kept as int;
            }
            self.turbulence_energy = e;
        }
        proof {
            freeze_wf_unchanged(*old(self), *self);
        }
    }

    /// Set the pressure threshold for tectonic shifts.
    pub fn set_pressure_threshold(&mut self, threshold: i64)
        requires
            old(self).wf(),
            0 < threshold <= MAG,
        ensures
            final(self).wf(),
            *final(self) == (ConceptFluid { pressure_threshold: threshold, ..*old(self) }),
    {
        self.pressure_threshold = threshold;
        proof {
            freeze_wf_unchanged(*old(self), *self);
        }
    }

    /// Precipitate a new concept from an atmospheric trait: it starts at
    /// the floor, sinking, and inherits thirty percent of the trait's
    /// integration.  Hands back the new identifier and the inherited
    /// integration, or nothing if the trait index is unknown.
    pub fn precipitate(
        &mut self,
        trait_index: usize,
        new_concept_name: String,
        density: i64,
        area: i64,
    ) -> (r: Option<(u128, i64)>)
        requires
            old(self).wf(),
            0 <= density <= SCALE,
            0 <= area <= MAG,
        ensures
            final(self).wf(),
            trait_index >= old(self).atmosphere@.len() ==> {
                &&& r is None
                &&& *final(self) == *old(self)
            },
            trait_index < old(self).atmosphere@.len() ==> {
                let inherited = fx_mul(
                    old(self).atmosphere@[trait_index as int].integration as int,
                    300_000,
                );
                &&& (r matches Some(p) && p.1 == inherited)
                &&& final(self).concepts@.len() == old(self).concepts@.len() + 1
                &&& ({
                    let c = final(self).concepts@.last();
                    &&& c.name == new_concept_name
                    &&& c.density == density
                    &&& c.buoyancy == density
                    &&& c.layer == SCALE
                    &&& c.velocity == 500_000
                    &&& c.integration == inherited
                    &&& c.area == area
                    &&& !c.is_frozen
                })
                &&& forall|i: int| 0 <= i < old(self).concepts@.len()
                    ==> #[trigger] final(self).concepts@[i] == old(self).concepts@[i]
                &&& *final(self) == (ConceptFluid { concepts: final(self).concepts, ..*old(self) })
            },
    {
        if trait_index >= self.atmosphere.len() {
            return None;
        }
        let trait_integration = self.atmosphere[trait_index].integration;
        let inherited_integration = fmul(trait_integration, 300_000);
        proof {
            assert(trait_integration as int * 300_000 >= 0) by (nonlinear_arith)
                requires 0 <= trait_integration as int;
        }
        let id = fresh_id();
        let mut concept = Concept::new(id, new_concept_name, density, area);
        concept.layer = SCALE;
        concept.velocity = 500_000;
        concept.integration = inherited_integration;
        let ghost c = concept;
        self.concepts.push(concept);
        proof {
            freeze_wf_after_push(*old(self), *self, c);
        }
        Some((id, inherited_integration))
    }
}

impl ConceptFluid {
    /// Thaw the fluid: clear the global freeze, unfreeze the concept that
    /// held it (resetting its surface timer and pushing it downward), and
    /// say whether anything was frozen.
    pub fn thaw(&mut self) -> (r: bool)
        requires
            old(self).wf(),
        ensures
            final(self).wf(),
            r == old(self).is_frozen,
            !final(self).is_frozen,
            final(self).frozen_concept is None,
            !old(self).is_frozen ==> *final(self) == *old(self),
            old(self).is_frozen ==> {
                &&& final(self).concepts@.len() == old(self).concepts@.len()
                &&& forall|i: int|
                    0 <= i < old(self).concepts@.len() && (
                    #[trigger] old(self).concepts@[i]).is_frozen ==> final(self).concepts@[i]
                        == (Concept {
                        is_frozen: false,
                        time_at_surface: 0,
                        velocity: fx_add(old(self).concepts@[i].velocity as int, 500_000) as i64,
                        ..old(self).concepts@[i]
                    })
                &&& forall|i: int|
                    0 <= i < old(self).concepts@.len() && !(
                    #[trigger] old(self).concepts@[i]).is_frozen ==> final(self).concepts@[i]
                        == old(self).concepts@[i]
                &&& *final(self) == (ConceptFluid {
                    concepts: final(self).concepts,
                    is_frozen: false,
                    frozen_concept: None,
                    ..*old(self)
                })
            },
    {
        if !self.is_frozen {
            return false;
        }
        self.is_frozen = false;
        self.frozen_concept = None;
        let n = self.concepts.len();
        let mut k: usize = 0;
        while k < n
            invariant
                old(self).wf(),
                old(self).is_frozen,
                self.concepts@ == old(self).concepts@,
                *self == (ConceptFluid {
                    is_frozen: false,
                    frozen_concept: None,
                    ..*old(self)
                }),
                n == self.concepts@.len(),
                k <= n,
                forall|j: int| 0 <= j < k ==> !(#[trigger] self.concepts@[j]).is_frozen,
            decreases n - k,
        {
            if self.concepts[k].is_frozen {
                let c = &mut self.concepts[k];
                c.is_frozen = false;
                c.time_at_surface = 0;
                c.velocity = fadd(c.velocity, 500_000);
                proof {
                    assert forall|i: int|
                        0 <= i < self.concepts@.len() implies !(
                    #[trigger] self.concepts@[i]).is_frozen by {
                        if i != k as int {
                            assert(!(old(self).concepts@[i].is_frozen)) by {
                                if old(self).concepts@[i].is_frozen {
                                    assert(old(self).concepts@[k as int].is_frozen);
                                }
                            }
                        }
                    }
                }
                return true;
            }
            k = k + 1;
        }
        proof {
            let w = choose|i: int|
                0 <= i < old(self).concepts@.len() && (#[trigger] old(self).concepts@[i]).is_frozen;
            assert(!self.concepts@[w].is_frozen);
            assert(false);
        }
        true
    }

    /// Flash heal: dilute salinity by the given strength, break any
    /// freeze, and pour in a surge of fresh concepts at depth `0.7`.
    /// Hands back the salinity before dilution.
    pub fn flash_heal(&mut self, concepts: Vec<(String, i64, i64)>, dilution_strength: i64) -> (r:
        i64)
        requires
            old(self).wf(),
            0 <= dilution_strength <= SCALE,
            forall|i: int| 0 <= i < concepts@.len() ==> {
                &&& 0 <= (#[trigger] concepts@[i]).1 <= SCALE
                &&& 0 <= concepts@[i].2 <= MAG
            },
        ensures
            final(self).wf(),
            r == old(self).salinity,
            final(self).salinity == fx_mul(
                old(self).salinity as int,
                fx_sub(SCALE as int, dilution_strength as int),
            ),
            !final(self).is_frozen,
            final(self).frozen_concept is None,
            final(self).concepts@.len() == old(self).concepts@.len() + concepts@.len(),
            forall|i: int| 0 <= i < old(self).concepts@.len()
                ==> #[trigger] final(self).concepts@[i] == (if old(self).concepts@[i].is_frozen {
                    Concept { is_frozen: false, time_at_surface: 0, ..old(self).concepts@[i] }
                } else {
                    old(self).concepts@[i]
                }),
            forall|j: int| 0 <= j < concepts@.len() ==> {
                let c = #[trigger] final(self).concepts@[old(self).concepts@.len() + j];
                &&& c.name == concepts@[j].0
                &&& c.density == concepts@[j].1
                &&& c.buoyancy == concepts@[j].1
                &&& c.layer == 700_000
                &&& c.velocity == 0
                &&& c.area == concepts@[j].2
                &&& c.integration == 0
                &&& !c.is_frozen
            },
            *final(self) == (ConceptFluid {
                concepts: final(self).concepts,
                salinity: final(self).salinity,
                is_frozen: false,
                frozen_concept: None,
                ..*old(self)
            }),
    {
        let old_salinity = self.salinity;
        let salt = self.salinity;
        let kept = fsub(SCALE, dilution_strength);
        let diluted = fmul(salt, kept);
        proof {
            assert(salt as int * (kept as int) >= 0) by (nonlinear_arith)
                requires 0 <= salt as int, 0 <= kept as int;
        }
        self.salinity = diluted;
        if self.is_frozen {
            self.is_frozen = false;
            self.frozen_concept = None;
            let n = self.concepts.len();
            let mut k: usize = 0;
            while k < n
                invariant
                    old(self).wf(),
                    n == self.concepts@.len(),
                    n == old(self).concepts@.len(),
                    k <= n,
                    forall|j: int| 0 <= j < n ==> #[trigger] self.concepts@[j] == (if j < k && old(
                        self,
                    ).concepts@[j].is_frozen {
                        Concept {
                            is_frozen: false,
                            time_at_surface: 0,
                            ..old(self).concepts@[j]
                        }
                    } else {
                        old(self).concepts@[j]
                    }),
                    *self == (ConceptFluid {
                        concepts: self.concepts,
                        salinity: self.salinity,
                        is_frozen: false,
                        frozen_concept: None,
                        ..*old(self)
                    }),
                    self.salinity == diluted,
                decreases n - k,
            {
                if self.concepts[k].is_frozen {
                    let c = &mut self.concepts[k];
                    c.is_frozen = false;
                    c.time_at_surface = 0;
                }
                k = k + 1;
            }
        }
        proof {
            assert forall|j: int| 0 <= j < self.concepts@.len() implies !(
            #[trigger] self.concepts@[j]).is_frozen by {
                if !old(self).is_frozen {
                    assert(!old(self).concepts@[j].is_frozen);
                }
            }
        }
        let mut fresh_concepts = concepts;
        let ghost incoming = fresh_concepts@;
        let ghost base = self.concepts@;
        while fresh_concepts.len() > 0
            invariant
                forall|i: int| 0 <= i < fresh_concepts@.len() ==> {
                    &&& 0 <= (#[trigger] fresh_concepts@[i]).1 <= SCALE
                    &&& 0 <= fresh_concepts@[i].2 <= MAG
                },
                fresh_concepts@.len() <= incoming.len(),
                fresh_concepts@ == incoming.skip(incoming.len() - fresh_concepts@.len()),
                self.concepts@.len() == base.len() + incoming.len() - fresh_concepts@.len(),
                forall|i: int| 0 <= i < base.len()
                    ==> #[trigger] self.concepts@[i] == base[i],
                forall|j: int| 0 <= j < incoming.len() - fresh_concepts@.len() ==> {
                    let c = #[trigger] self.concepts@[base.len() + j];
                    &&& c.name == incoming[j].0
                    &&& c.density == incoming[j].1
                    &&& c.buoyancy == incoming[j].1
                    &&& c.layer == 700_000
                    &&& c.velocity == 0
                    &&& c.area == incoming[j].2
                    &&& c.integration == 0
                    &&& c.wf()
                    &&& !c.is_frozen
                },
                forall|i: int| 0 <= i < self.concepts@.len()
                    ==> !(#[trigger] self.concepts@[i]).is_frozen,
                forall|i: int| 0 <= i < self.concepts@.len()
                    ==> (#[trigger] self.concepts@[i]).wf(),
                *self == (ConceptFluid {
                    concepts: self.concepts,
                    salinity: self.salinity,
                    is_frozen: false,
                    frozen_concept: None,
                    ..*old(self)
                }),
                self.salinity == diluted,
            decreases fresh_concepts@.len(),
        {
            let ghost j = incoming.len() - fresh_concepts@.len();
            let entry = fresh_concepts.remove(0);
            proof {
                assert(incoming.skip(j as int)[0] == incoming[j as int]);
                assert(fresh_concepts@ =~= incoming.skip(j as int + 1));
            }
            let id = fresh_id();
            let mut concept = Concept::new(id, entry.0, entry.1, entry.2);
            concept.layer = 700_000;
            self.concepts.push(concept);
        }
        proof {
            assert(incoming.skip(0) =~= incoming);
        }
        old_salinity
    }

    /// Remove the first concept carrying `id`; if it held the freeze, the
    /// freeze ends with it.  Says whether a concept was removed.
    pub fn remove_concept(&mut self, id: u128) -> (r: bool)
        requires
            old(self).wf(),
        ensures
            final(self).wf(),
            r == (concept_index(old(self).concepts@, id) >= 0),
            !r ==> *final(self) == *old(self),
            r ==> {
                let i = concept_index(old(self).concepts@, id);
                &&& final(self).concepts@ == old(self).concepts@.remove(i)
                &&& final(self).is_frozen == (old(self).is_frozen
                    && !old(self).concepts@[i].is_frozen)
                &&& *final(self) == (ConceptFluid {
                    concepts: final(self).concepts,
                    is_frozen: final(self).is_frozen,
                    frozen_concept: final(self).frozen_concept,
                    ..*old(self)
                })
            },
    {
        let n = self.concepts.len();
        let mut k: usize = 0;
        while k < n
            invariant
                old(self).wf(),
                *self == *old(self),
                n == self.concepts@.len(),
                k <= n,
                forall|j: int| 0 <= j < k ==> (#[trigger] self.concepts@[j]).id != id,
            decreases n - k,
        {
            if self.concepts[k].id == id {
                proof {
                    concept_found_is_first(old(self).concepts@, id, k as int);
                }
                if self.concepts[k].is_frozen {
                    self.is_frozen = false;
                    self.frozen_concept = None;
                }
                let _removed = self.concepts.remove(k);
                proof {
                    freeze_wf_after_remove(*old(self), *self, k as int);
                }
                return true;
            }
            k = k + 1;
        }
        proof {
            lemma_concept_index(old(self).concepts@, id);
        }
        false
    }

    /// The currently running division experiment, if any.
    pub fn get_experiment_status(&self) -> (r: Option<&DivisionExperiment>)
        ensures
            (r is Some) <==> (self.active_experiment is Some),
            r matches Some(e) ==> self.active_experiment matches Some(a) && *e == a,
    {
        self.active_experiment.as_ref()
    }
}

impl ConceptFluid {
    /// Kinetic-energy sum, speed sum, greatest speed and found count of
    /// the listed bubbles.
    fn bubble_stats(&self, ids: &Vec<u128>) -> (r: (i64, i64, i64, i64))
        requires
            self.wf(),
            ids@.len() <= SCALE,
        ensures
            r.0 == bubble_ke_sum(self.concepts@, ids@),
            r.1 == bubble_speed_sum(self.concepts@, ids@),
            r.2 == bubble_speed_max(self.concepts@, ids@),
            r.3 == bubble_found_count(self.concepts@, ids@),
            0 <= r.0 <= MAG,
            0 <= r.1 <= MAG,
            0 <= r.2 <= MAG,
            0 <= r.3 <= ids@.len(),
    {
        let mut ke_sum: i64 = 0;
        let mut speed_sum: i64 = 0;
        let mut speed_max: i64 = 0;
        let mut found: i64 = 0;
        let mut k: usize = 0;
        while k < ids.len()
            invariant
                self.wf(),
                ids@.len() <= SCALE,
                k <= ids@.len(),
                ke_sum == bubble_ke_sum(self.concepts@, ids@.take(k as int)),
                speed_sum == bubble_speed_sum(self.concepts@, ids@.take(k as int)),
                speed_max == bubble_speed_max(self.concepts@, ids@.take(k as int)),
                found == bubble_found_count(self.concepts@, ids@.take(k as int)),
                0 <= ke_sum <= MAG,
                0 <= speed_sum <= MAG,
                0 <= speed_max <= MAG,
                0 <= found <= k,
            decreases ids@.len() - k,
        {
            proof {
                assert(ids@.take(k + 1 as int).drop_last() =~= ids@.take(k as int));
                assert(ids@.take(k + 1 as int).last() == ids@[k as int]);
            }
            let id = ids[k];
            let found_concept = self.get_concept(id);
            match found_concept {
                Some(c) => {
                    proof {
                        lemma_concept_index(self.concepts@, id);
                    }
                    let speed = fabs(c.velocity);
                    let ke = fmul(500_000, fmul(c.velocity, c.velocity));
                    proof {
                        crate::standing_wave::lemma_fx_sq_nonneg(c.velocity as int);
                        let sq = fx_mul(c.velocity as int, c.velocity as int);
                        assert(500_000 * sq >= 0) by (nonlinear_arith)
                            requires sq >= 0;
                        assert(div_tz(500_000 * sq, SCALE as int) >= 0) by (nonlinear_arith)
                            requires 500_000 * sq >= 0;
                    }
                    ke_sum = fadd(ke_sum, ke);
                    speed_sum = fadd(speed_sum, speed);
                    if speed > speed_max {
                        speed_max = speed;
                    }
                    found = found + 1;
                },
                None => {},
            }
            k = k + 1;
        }
        proof {
            assert(ids@.take(ids@.len() as int) =~= ids@);
        }
        (ke_sum, speed_sum, speed_max, found)
    }

    /// Start a division experiment: clear any previous one (removing its
    /// bubbles), build a standing wave encoding the divisor, inject one
    /// buoyant bubble per whole unit of the dividend spread over the
    /// middle depths, raise salinity by the given boost, and reset the
    /// turbulence state for a clean measurement.  Hands back the problem
    /// identifier.
    pub fn start_division_experiment_with_salinity(
        &mut self,
        dividend: i64,
        divisor: i64,
        salinity_boost: i64,
    ) -> (r: u128)
        requires
            old(self).wf(),
            1 <= dividend <= 100_000_000,
            1 <= divisor <= 20_000_000,
            0 <= salinity_boost <= 10_000_000,
        ensures
            final(self).wf(),
            final(self).active_experiment matches Some(e) ==> {
                &&& e.problem.dividend == dividend
                &&& e.problem.divisor == divisor
                &&& e.problem.id == r
                &&& e.wave.frequency == divisor
                &&& e.bubble_ids@.len() == dividend as int / (SCALE as int)
                &&& e.original_salinity == old(self).salinity
                &&& e.salinity_boost == salinity_boost
                &&& e.start_tick == old(self).tick_count
                &&& !e.settled
                &&& e.max_ticks == 300
            },
            final(self).active_experiment is Some,
            final(self).salinity == fx_add(old(self).salinity as int, salinity_boost as int),
            !final(self).is_turbulent,
            final(self).turbulence_energy == 0,
            final(self).standing_waves@.len() == 1,
            final(self).standing_waves@[0].frequency == divisor,
            final(self).tick_count == old(self).tick_count,
            final(self).experiment_results == old(self).experiment_results,
            ({
                let base = match old(self).active_experiment {
                    Some(p) => remove_ids(old(self).concepts@, p.bubble_ids@),
                    None => old(self).concepts@,
                };
                let count = dividend as int / (SCALE as int);
                &&& final(self).concepts@.len() == base.len() + count
                &&& (forall|i: int| 0 <= i < base.len()
                    ==> #[trigger] final(self).concepts@[i] == base[i])
                &&& (final(self).active_experiment matches Some(e) ==> forall|k: int|
                    0 <= k < count ==> {
                        let b = #[trigger] final(self).concepts@[base.len() + k];
                        &&& b.id == e.bubble_ids@[k]
                        &&& b.density == 150_000
                        &&& b.buoyancy == 150_000
                        &&& b.area == 300_000
                        &&& b.layer == 200_000 + (k * 100_000) % 600_000
                        &&& b.velocity == fx_mul(100_000, osc(k * 700_000))
                        &&& b.integration == 0
                        &&& !b.is_frozen
                        &&& !b.has_broken_surface
                        &&& !b.has_evaporated
                    })
            }),
    {
        let ghost base = match old(self).active_experiment {
            Some(p) => remove_ids(old(self).concepts@, p.bubble_ids@),
            None => old(self).concepts@,
        };
        let previous_experiment = self.active_experiment.take();
        proof {
            freeze_wf_unchanged(*old(self), *self);
        }
        match previous_experiment {
            Some(previous) => {
                let ids = previous.bubble_ids;
                let mut k: usize = 0;
                while k < ids.len()
                    invariant
                        self.wf(),
                        self.active_experiment is None,
                        self.salinity == old(self).salinity,
                        self.tick_count == old(self).tick_count,
                        self.experiment_results == old(self).experiment_results,
                        self.concepts@ == remove_ids(old(self).concepts@, ids@.take(k as int)),
                        k <= ids@.len(),
                    decreases ids@.len() - k,
                {
                    proof {
                        assert(ids@.take(k + 1 as int) =~= ids@.take(k as int).push(
                            ids@[k as int],
                        ));
                        lemma_remove_ids_push(
                            old(self).concepts@,
                            ids@.take(k as int),
                            ids@[k as int],
                        );
                    }
                    let _removed = self.remove_concept(ids[k]);
                    k = k + 1;
                }
                proof {
                    assert(ids@.take(ids@.len() as int) =~= ids@);
                }
            },
            None => {},
        }
        proof {
            assert(self.concepts@ == base);
        }
        let ghost cleared = *self;
        self.standing_waves = Vec::new();
        let problem = DivisionProblem::new(dividend, divisor);
        let problem_id = problem.id;
        let wave = StandingWave::new(divisor, 8_000_000);
        let wave_copy = clone_wave(&wave);
        proof {
            assert(wave_copy.wf());
        }
        self.standing_waves.push(wave_copy);
        proof {
            freeze_wf_unchanged(cleared, *self);
        }
        let mut experiment = DivisionExperiment::new(problem, self.tick_count);
        experiment.wave = wave;
        let bubble_count = ((dividend as u64) / (SCALE as u64)) as usize;
        proof {
            assert(dividend as int / (SCALE as int) <= 100) by (nonlinear_arith)
                requires 1 <= dividend as int <= 100_000_000;
            assert(dividend as int / (SCALE as int) >= 0) by (nonlinear_arith)
                requires 1 <= dividend as int;
        }
        let mut i: usize = 0;
        while i < bubble_count
            invariant
                self.wf(),
                bubble_count <= 100,
                i <= bubble_count,
                experiment.bubble_ids@.len() == i,
                experiment.wf(),
                experiment.problem.dividend == dividend,
                experiment.problem.divisor == divisor,
                experiment.problem.id == problem_id,
                experiment.wave.frequency == divisor,
                experiment.original_salinity == 0,
                experiment.salinity_boost == 0,
                experiment.start_tick == old(self).tick_count,
                !experiment.settled,
                experiment.max_ticks == 300,
                self.active_experiment is None,
                self.salinity == old(self).salinity,
                self.tick_count == old(self).tick_count,
                self.experiment_results == old(self).experiment_results,
                self.standing_waves@.len() == 1,
                self.standing_waves@[0].frequency == divisor,
                self.concepts@.len() == base.len() + i,
                forall|j: int| 0 <= j < base.len() ==> #[trigger] self.concepts@[j] == base[j],
                forall|k: int| 0 <= k < i ==> {
                    let b = #[trigger] self.concepts@[base.len() + k];
                    &&& b.id == experiment.bubble_ids@[k]
                    &&& b.density == 150_000
                    &&& b.buoyancy == 150_000
                    &&& b.area == 300_000
                    &&& b.layer == 200_000 + (k * 100_000) % 600_000
                    &&& b.velocity == fx_mul(100_000, osc(k * 700_000))
                    &&& b.integration == 0
                    &&& !b.is_frozen
                    &&& !b.has_broken_surface
                    &&& !b.has_evaporated
                },
            decreases bubble_count - i,
        {
            let id = fresh_id();
            let bubble_name = joined_counted("bubble", "_", i as u64);
            let mut bubble = Concept::new(id, bubble_name, 150_000, 300_000);
            bubble.layer = 200_000 + (((i as u64) * 100_000) % 600_000) as i64;
            bubble.velocity = fmul(100_000, osc_at((i as i64) * 700_000));
            let ghost b = bubble;
            let ghost pre = *self;
            self.concepts.push(bubble);
            proof {
                freeze_wf_after_push(pre, *self, b);
            }
            experiment.bubble_ids.push(id);
            i = i + 1;
        }
        experiment.original_salinity = self.salinity;
        experiment.salinity_boost = salinity_boost;
        let ghost injected = *self;
        self.salinity = fadd(self.salinity, salinity_boost);
        self.active_experiment = Some(experiment);
        self.is_turbulent = false;
        self.turbulence_energy = 0;
        proof {
            freeze_wf_unchanged(injected, *self);
        }
        problem_id
    }

    /// Start a division experiment with no salinity boost.
    pub fn start_division_experiment(&mut self, dividend: i64, divisor: i64) -> (r: u128)
        requires
            old(self).wf(),
            1 <= dividend <= 100_000_000,
            1 <= divisor <= 20_000_000,
        ensures
            final(self).wf(),
            final(self).active_experiment is Some,
            final(self).active_experiment matches Some(e) ==> {
                &&& e.problem.dividend == dividend
                &&& e.problem.divisor == divisor
                &&& e.problem.id == r
                &&& e.bubble_ids@.len() == dividend as int / (SCALE as int)
            },
            final(self).salinity == old(self).salinity,
            !final(self).is_turbulent,
    {
        self.start_division_experiment_with_salinity(dividend, divisor, 0)
    }
}

/// An optional event as a (possibly empty) event run.
pub open spec fn opt_event_seq(ev: Option<FluidEvent>) -> Seq<FluidEvent> {
    match ev {
        Some(e) => seq![e],
        None => Seq::<FluidEvent>::empty(),
    }
}

/// The first continent whose band contains `layer`, or `-1`.
pub open spec fn first_containing(cs: Seq<Continent>, layer: int) -> int
    decreases cs.len(),
{
    if cs.len() == 0 {
        -1
    } else if cs[0].depth_range.0 <= layer <= cs[0].depth_range.1 {
        0
    } else {
        let t = first_containing(cs.skip(1), layer);
        if t < 0 { -1 } else { t + 1 }
    }
}

/// `first_containing` finds exactly the first containing continent.
pub proof fn lemma_first_containing(cs: Seq<Continent>, layer: int)
    ensures
        first_containing(cs, layer) >= 0 ==> {
            &&& first_containing(cs, layer) < cs.len()
            &&& cs[first_containing(cs, layer)].depth_range.0 <= layer
                <= cs[first_containing(cs, layer)].depth_range.1
            &&& forall|j: int| 0 <= j < first_containing(cs, layer)
                ==> !((#[trigger] cs[j]).depth_range.0 <= layer <= cs[j].depth_range.1)
        },
        first_containing(cs, layer) < 0 ==> forall|j: int|
            0 <= j < cs.len() ==> !((#[trigger] cs[j]).depth_range.0 <= layer
                <= cs[j].depth_range.1),
    decreases cs.len(),
{
    if cs.len() > 0 && !(cs[0].depth_range.0 <= layer <= cs[0].depth_range.1) {
        let tail = cs.skip(1);
        let t = first_containing(tail, layer);
        lemma_first_containing(tail, layer);
        if t >= 0 {
            assert(tail[t] == cs[t + 1]);
            assert forall|j: int| 0 <= j < t + 1 implies !((#[trigger] cs[j]).depth_range.0
                <= layer <= cs[j].depth_range.1) by {
                if j > 0 {
                    assert(tail[j - 1] == cs[j]);
                }
            }
        } else {
            assert forall|j: int| 0 <= j < cs.len() implies !((#[trigger] cs[j]).depth_range.0
                <= layer <= cs[j].depth_range.1) by {
                if j > 0 {
                    assert(tail[j - 1] == cs[j]);
                }
            }
        }
    }
}

/// The combined pull of every standing wave at `depth`, summed in order.
pub open spec fn wave_force_sum(waves: Seq<StandingWave>, depth: int) -> int
    decreases waves.len(),
{
    if waves.len() == 0 {
        0
    } else {
        fx_add(wave_force_sum(waves.drop_last(), depth), waves.last().spec_wave_force(depth))
    }
}

/// The combined thermal uplift of every vent whose radius reaches `layer`,
/// summed in order (uplift is negative: it pushes toward the surface).
pub open spec fn thermal_force_sum(vents: Seq<CoreTruth>, layer: int) -> int
    decreases vents.len(),
{
    if vents.len() == 0 {
        0
    } else {
        let rest = thermal_force_sum(vents.drop_last(), layer);
        let v = vents.last();
        let dist = mag(layer - v.depth as int);
        if dist < v.radius {
            let proximity = fx_sub(SCALE as int, fx_div(dist, v.radius as int));
            fx_sub(rest, fx_mul(v.heat_output as int, fx_mul(proximity, proximity)))
        } else {
            rest
        }
    }
}

/// The floor pressure after depositing a run of ores on top of `base`:
/// each deposit adds its pressure weight, saturating.
pub open spec fn deposit_pressure(base: int, ores: Seq<PreciousOre>) -> int
    decreases ores.len(),
{
    if ores.len() == 0 {
        base
    } else {
        fx_add(
            deposit_pressure(base, ores.drop_last()),
            fx_mul(ores.last().density as int, ores.last().integration_value as int),
        )
    }
}

/// The vent-encounter counter after one force pass: each vent whose heat
/// meaningfully reaches a heavy concept counts one qualifying encounter
/// (saturating).
pub open spec fn encounters_after(vents: Seq<CoreTruth>, layer: int, density: int, enc0: u32)
    -> int
    decreases vents.len(),
{
    if vents.len() == 0 {
        enc0 as int
    } else {
        let e = encounters_after(vents.drop_last(), layer, density, enc0);
        let v = vents.last();
        let dist = mag(layer - v.depth as int);
        let qualifies = dist < v.radius && {
            let proximity = fx_sub(SCALE as int, fx_div(dist, v.radius as int));
            fx_mul(v.heat_output as int, fx_mul(proximity, proximity)) > 10_000
        } && density > 700_000;
        if qualifies && e < u32::MAX { e + 1 } else { e }
    }
}

/// How a suppressed concept moves while a freeze it does not hold is
/// active: upward motion clamped away, a constant downward push, and one
/// Euler step, with everything else untouched.
pub open spec fn spec_suppressed_step(c: Concept, dt: int) -> Concept {
    let v1 = fx_add(if c.velocity <= 0 { c.velocity as int } else { 0 }, fx_mul(2_000_000, dt));
    Concept {
        velocity: v1 as i64,
        layer: clamped(fx_add(c.layer as int, fx_mul(v1, dt)), 0, SCALE as int) as i64,
        ..c
    }
}

/// The store after removing the first concept carrying `id`, if any.
pub open spec fn remove_one(cs: Seq<Concept>, id: u128) -> Seq<Concept> {
    if concept_index(cs, id) >= 0 {
        cs.remove(concept_index(cs, id))
    } else {
        cs
    }
}

/// The store after removing, in order, the first match of each listed
/// identifier (identifiers without a match remove nothing).
pub open spec fn remove_ids(cs: Seq<Concept>, ids: Seq<u128>) -> Seq<Concept>
    decreases ids.len(),
{
    if ids.len() == 0 {
        cs
    } else {
        remove_ids(remove_one(cs, ids.first()), ids.skip(1))
    }
}

/// Removing one more identifier at the end removes it from the result of
/// the earlier removals.
pub proof fn lemma_remove_ids_push(cs: Seq<Concept>, ids: Seq<u128>, id: u128)
    ensures
        remove_ids(cs, ids.push(id)) == remove_one(remove_ids(cs, ids), id),
    decreases ids.len(),
{
    if ids.len() == 0 {
        assert(ids.push(id).skip(1) =~= Seq::<u128>::empty());
        assert(ids.push(id).first() == id);
        assert(remove_ids(cs, ids.push(id)) == remove_ids(
            remove_one(cs, id),
            Seq::<u128>::empty(),
        ));
        assert(remove_ids(remove_one(cs, id), Seq::<u128>::empty()) == remove_one(cs, id));
        assert(remove_ids(cs, ids) == cs);
    } else {
        assert(ids.push(id).first() == ids.first());
        assert(ids.push(id).skip(1) =~= ids.skip(1).push(id));
        lemma_remove_ids_push(remove_one(cs, ids.first()), ids.skip(1), id);
        assert(remove_ids(cs, ids.push(id)) == remove_ids(
            remove_one(cs, ids.first()),
            ids.skip(1).push(id),
        ));
        assert(remove_ids(cs, ids) == remove_ids(remove_one(cs, ids.first()), ids.skip(1)));
    }
}

/// The saturating sum of the kinetic energies (`v * v / 2`) of the
/// bubbles found in the store.
pub open spec fn bubble_ke_sum(cs: Seq<Concept>, ids: Seq<u128>) -> int
    decreases ids.len(),
{
    if ids.len() == 0 {
        0
    } else {
        let rest = bubble_ke_sum(cs, ids.drop_last());
        let i = concept_index(cs, ids.last());
        if i >= 0 {
            fx_add(
                rest,
                fx_mul(500_000, fx_mul(cs[i].velocity as int, cs[i].velocity as int)),
            )
        } else {
            rest
        }
    }
}

/// The saturating sum of the speeds of the bubbles found in the store.
pub open spec fn bubble_speed_sum(cs: Seq<Concept>, ids: Seq<u128>) -> int
    decreases ids.len(),
{
    if ids.len() == 0 {
        0
    } else {
        let rest = bubble_speed_sum(cs, ids.drop_last());
        let i = concept_index(cs, ids.last());
        if i >= 0 {
            fx_add(rest, mag(cs[i].velocity as int))
        } else {
            rest
        }
    }
}

/// The greatest speed of any bubble found in the store.
pub open spec fn bubble_speed_max(cs: Seq<Concept>, ids: Seq<u128>) -> int
    decreases ids.len(),
{
    if ids.len() == 0 {
        0
    } else {
        let rest = bubble_speed_max(cs, ids.drop_last());
        let i = concept_index(cs, ids.last());
        if i >= 0 && mag(cs[i].velocity as int) > rest {
            mag(cs[i].velocity as int)
        } else {
            rest
        }
    }
}

/// How many of the listed bubbles are present in the store.
pub open spec fn bubble_found_count(cs: Seq<Concept>, ids: Seq<u128>) -> int
    decreases ids.len(),
{
    if ids.len() == 0 {
        0
    } else {
        bubble_found_count(cs, ids.drop_last()) + if concept_index(cs, ids.last()) >= 0 {
            1int
        } else {
            0int
        }
    }
}

/// The first node within `tolerance` of `depth`, or `-1`.
pub open spec fn first_tol_node(positions: Seq<i64>, tolerance: int, depth: int) -> int
    decreases positions.len(),
{
    if positions.len() == 0 {
        -1
    } else if mag(depth - positions[0]) < tolerance {
        0
    } else {
        let t = first_tol_node(positions.skip(1), tolerance, depth);
        if t < 0 { -1 } else { t + 1 }
    }
}

/// How many of the listed bubbles settle at node `node` (their first
/// in-tolerance node).
pub open spec fn occ_tol_count(
    cs: Seq<Concept>,
    ids: Seq<u128>,
    positions: Seq<i64>,
    tolerance: int,
    node: int,
) -> int
    decreases ids.len(),
{
    if ids.len() == 0 {
        0
    } else {
        let rest = occ_tol_count(cs, ids.drop_last(), positions, tolerance, node);
        let i = concept_index(cs, ids.last());
        rest + if i >= 0 && first_tol_node(positions, tolerance, cs[i].layer as int) == node {
            1int
        } else {
            0int
        }
    }
}

/// `first_tol_node` finds exactly the first in-tolerance node.
pub proof fn lemma_first_tol_node(positions: Seq<i64>, tolerance: int, depth: int)
    ensures
        first_tol_node(positions, tolerance, depth) >= 0 ==> {
            &&& first_tol_node(positions, tolerance, depth) < positions.len()
            &&& mag(depth - positions[first_tol_node(positions, tolerance, depth)]) < tolerance
            &&& forall|j: int| 0 <= j < first_tol_node(positions, tolerance, depth)
                ==> mag(depth - #[trigger] positions[j]) >= tolerance
        },
        first_tol_node(positions, tolerance, depth) < 0 ==> forall|j: int|
            0 <= j < positions.len() ==> mag(depth - #[trigger] positions[j]) >= tolerance,
    decreases positions.len(),
{
    if positions.len() > 0 && !(mag(depth - positions[0]) < tolerance) {
        let tail = positions.skip(1);
        let t = first_tol_node(tail, tolerance, depth);
        lemma_first_tol_node(tail, tolerance, depth);
        if t >= 0 {
            assert(tail[t] == positions[t + 1]);
            assert forall|j: int| 0 <= j < t + 1 implies mag(depth - #[trigger] positions[j])
                >= tolerance by {
                if j > 0 {
                    assert(tail[j - 1] == positions[j]);
                }
            }
        } else {
            assert forall|j: int| 0 <= j < positions.len() implies mag(
                depth - #[trigger] positions[j],
            ) >= tolerance by {
                if j > 0 {
                    assert(tail[j - 1] == positions[j]);
                }
            }
        }
    }
}

/// Two standing waves carry the same information.
pub open spec fn wave_like(a: StandingWave, b: StandingWave) -> bool {
    &&& a.id == b.id
    &&& a.frequency == b.frequency
    &&& a.node_spacing == b.node_spacing
    &&& a.amplitude == b.amplitude
    &&& a.node_positions@ == b.node_positions@
    &&& a.active == b.active
    &&& a.saturation_limit == b.saturation_limit
    &&& a.node_occupancy@ == b.node_occupancy@
    &&& a.breathing_enabled == b.breathing_enabled
    &&& a.breathing_omega == b.breathing_omega
    &&& a.breathing_phase == b.breathing_phase
    &&& a.breathing_depth == b.breathing_depth
}

/// Duplicate a standing wave field by field.
fn clone_wave(w: &StandingWave) -> (r: StandingWave)
    ensures
        wave_like(r, *w),
{
    let mut node_positions: Vec<i64> = Vec::new();
    let mut k: usize = 0;
    while k < w.node_positions.len()
        invariant
            k <= w.node_positions@.len(),
            node_positions@ == w.node_positions@.take(k as int),
        decreases w.node_positions@.len() - k,
    {
        node_positions.push(w.node_positions[k]);
        proof {
            assert(node_positions@ =~= w.node_positions@.take(k + 1 as int));
        }
        k = k + 1;
    }
    let mut node_occupancy: Vec<u32> = Vec::new();
    let mut k2: usize = 0;
    while k2 < w.node_occupancy.len()
        invariant
            k2 <= w.node_occupancy@.len(),
            node_occupancy@ == w.node_occupancy@.take(k2 as int),
        decreases w.node_occupancy@.len() - k2,
    {
        node_occupancy.push(w.node_occupancy[k2]);
        proof {
            assert(node_occupancy@ =~= w.node_occupancy@.take(k2 + 1 as int));
        }
        k2 = k2 + 1;
    }
    proof {
        assert(node_positions@ =~= w.node_positions@);
        assert(node_occupancy@ =~= w.node_occupancy@);
    }
    StandingWave {
        id: w.id,
        frequency: w.frequency,
        node_spacing: w.node_spacing,
        amplitude: w.amplitude,
        node_positions,
        active: w.active,
        saturation_limit: w.saturation_limit,
        node_occupancy,
        breathing_enabled: w.breathing_enabled,
        breathing_omega: w.breathing_omega,
        breathing_phase: w.breathing_phase,
        breathing_depth: w.breathing_depth,
    }
}

/// Two division results carry the same information.
pub open spec fn result_like(a: DivisionResult, b: DivisionResult) -> bool {
    &&& a.dividend == b.dividend
    &&& a.divisor == b.divisor
    &&& a.is_divisible == b.is_divisible
    &&& a.quotient == b.quotient
    &&& a.remainder == b.remainder
    &&& a.reynolds_number == b.reynolds_number
    &&& a.turbulence_energy == b.turbulence_energy
    &&& a.ticks_to_settle == b.ticks_to_settle
    &&& a.node_occupancy@ == b.node_occupancy@
    &&& a.salinity_boost == b.salinity_boost
    &&& a.velocity_sigma == b.velocity_sigma
    &&& a.velocity_mean == b.velocity_mean
    &&& a.peak_jitter == b.peak_jitter
}

/// Duplicate a division result field by field.
fn clone_result(res: &DivisionResult) -> (r: DivisionResult)
    ensures
        result_like(r, *res),
{
    let mut node_occupancy: Vec<u32> = Vec::new();
    let mut k: usize = 0;
    while k < res.node_occupancy.len()
        invariant
            k <= res.node_occupancy@.len(),
            node_occupancy@ == res.node_occupancy@.take(k as int),
        decreases res.node_occupancy@.len() - k,
    {
        node_occupancy.push(res.node_occupancy[k]);
        proof {
            assert(node_occupancy@ =~= res.node_occupancy@.take(k + 1 as int));
        }
        k = k + 1;
    }
    proof {
        assert(node_occupancy@ =~= res.node_occupancy@);
    }
    DivisionResult {
        dividend: res.dividend,
        divisor: res.divisor,
        is_divisible: res.is_divisible,
        quotient: res.quotient,
        remainder: res.remainder,
        reynolds_number: res.reynolds_number,
        turbulence_energy: res.turbulence_energy,
        ticks_to_settle: res.ticks_to_settle,
        node_occupancy,
        salinity_boost: res.salinity_boost,
        velocity_sigma: res.velocity_sigma,
        velocity_mean: res.velocity_mean,
        peak_jitter: res.peak_jitter,
    }
}

/// Occupancy tallies never exceed the number of bubbles listed.
proof fn lemma_occ_tol_bound(
    cs: Seq<Concept>,
    ids: Seq<u128>,
    positions: Seq<i64>,
    tolerance: int,
)
    ensures
        forall|m: int| 0 <= #[trigger] occ_tol_count(cs, ids, positions, tolerance, m)
            <= ids.len(),
    decreases ids.len(),
{
    if ids.len() > 0 {
        lemma_occ_tol_bound(cs, ids.drop_last(), positions, tolerance);
        assert forall|m: int| 0 <= #[trigger] occ_tol_count(cs, ids, positions, tolerance, m)
            <= ids.len() by {
            assert(0 <= occ_tol_count(cs, ids.drop_last(), positions, tolerance, m)
                <= ids.drop_last().len());
        }
    }
}

/// The first node within `tolerance` of `depth`, if any.
fn first_node_within(positions: &Vec<i64>, tolerance: i64, depth: i64) -> (r: Option<usize>)
    requires
        forall|j: int| 0 <= j < positions@.len() ==> 0 <= #[trigger] positions@[j] <= SCALE,
        0 <= depth <= SCALE,
        0 <= tolerance <= MAG,
    ensures
        (r is Some) <==> first_tol_node(positions@, tolerance as int, depth as int) >= 0,
        r matches Some(j) ==> j == first_tol_node(positions@, tolerance as int, depth as int),
{
    proof {
        lemma_first_tol_node(positions@, tolerance as int, depth as int);
    }
    let n = positions.len();
    let mut k: usize = 0;
    while k < n
        invariant
            forall|j: int| 0 <= j < positions@.len() ==> 0 <= #[trigger] positions@[j] <= SCALE,
            0 <= depth <= SCALE,
            0 <= tolerance <= MAG,
            n == positions@.len(),
            k <= n,
            forall|j: int| 0 <= j < k ==> mag(depth - #[trigger] positions@[j]) >= tolerance,
        decreases n - k,
    {
        let d = fabs(fsub(depth, positions[k]));
        if d < tolerance {
            proof {
                lemma_first_tol_node(positions@, tolerance as int, depth as int);
                let fi = first_tol_node(positions@, tolerance as int, depth as int);
                if fi < 0 {
                    assert(mag(depth - positions@[k as int]) >= tolerance);
                } else if fi < k as int {
                    assert(mag(depth - positions@[fi]) >= tolerance);
                    assert(mag(depth - positions@[fi]) < tolerance);
                } else if fi > k as int {
                    assert(mag(depth - positions@[k as int]) >= tolerance);
                }
            }
            return Some(k);
        }
        k = k + 1;
    }
    proof {
        lemma_first_tol_node(positions@, tolerance as int, depth as int);
    }
    None
}

impl ConceptFluid {
    /// Finalize a division experiment: tally node occupancy by proximity,
    /// compute the exact quotient and remainder, read off the physical
    /// diagnostics, restore the pre-experiment salinity, remove the
    /// bubbles and the wave, and archive the result.
    fn finalize_experiment(&mut self, experiment: DivisionExperiment) -> (r: DivisionResult)
        requires
            old(self).wf(),
            experiment.wf(),
        ensures
            final(self).wf(),
            r.dividend == experiment.problem.dividend,
            r.divisor == experiment.problem.divisor,
            r.quotient == crate::fixed::sat(
                (experiment.problem.dividend as int / experiment.problem.divisor as int) * SCALE,
            ),
            r.remainder == experiment.problem.dividend as int % experiment.problem.divisor as int,
            r.is_divisible == (r.remainder < 1_000),
            r.salinity_boost == experiment.salinity_boost,
            r.peak_jitter == experiment.peak_jitter,
            r.velocity_sigma == sigma_of(experiment.velocity_history@),
            r.velocity_mean == mean_of(experiment.velocity_history@),
            r.turbulence_energy == experiment.accumulated_turbulence,
            r.ticks_to_settle == (if old(self).tick_count >= experiment.start_tick {
                old(self).tick_count - experiment.start_tick
            } else {
                0int
            }),
            r.reynolds_number == fx_div(
                bubble_speed_sum(old(self).concepts@, experiment.bubble_ids@),
                old(self).viscosity as int,
            ),
            r.node_occupancy@.len() == experiment.wave.node_positions@.len(),
            forall|m: int| 0 <= m < r.node_occupancy@.len()
                ==> #[trigger] r.node_occupancy@[m] == occ_tol_count(
                    old(self).concepts@,
                    experiment.bubble_ids@,
                    experiment.wave.node_positions@,
                    experiment.wave.node_spacing as int / 2,
                    m,
                ),
            final(self).salinity == experiment.original_salinity,
            final(self).standing_waves@.len() == 0,
            final(self).active_experiment == old(self).active_experiment,
            final(self).experiment_results@.len() == old(self).experiment_results@.len() + 1,
            result_like(final(self).experiment_results@.last(), r),
            forall|i: int| 0 <= i < old(self).experiment_results@.len()
                ==> #[trigger] final(self).experiment_results@[i] == old(
                self,
            ).experiment_results@[i],
            final(self).tick_count == old(self).tick_count,
            final(self).concepts@ == remove_ids(old(self).concepts@, experiment.bubble_ids@),
            *final(self) == (ConceptFluid {
                concepts: final(self).concepts,
                is_frozen: final(self).is_frozen,
                frozen_concept: final(self).frozen_concept,
                salinity: final(self).salinity,
                standing_waves: final(self).standing_waves,
                experiment_results: final(self).experiment_results,
                ..*old(self)
            }),
    {
        let tolerance = fhalf(experiment.wave.node_spacing);
        let nodes = experiment.wave.node_positions.len();
        let mut node_occupancy: Vec<u32> = Vec::new();
        let mut z: usize = 0;
        while z < nodes
            invariant
                node_occupancy@.len() == z,
                z <= nodes,
                forall|m: int| 0 <= m < z ==> #[trigger] node_occupancy@[m] == 0,
            decreases nodes - z,
        {
            node_occupancy.push(0);
            z = z + 1;
        }
        let ids = &experiment.bubble_ids;
        let positions = &experiment.wave.node_positions;
        let mut k: usize = 0;
        proof {
            lemma_occ_tol_bound(
                self.concepts@,
                ids@,
                positions@,
                tolerance as int,
            );
        }
        while k < ids.len()
            invariant
                self.wf(),
                *self == *old(self),
                ids == &experiment.bubble_ids,
                positions == &experiment.wave.node_positions,
                experiment.wf(),
                tolerance == experiment.wave.node_spacing as int / 2,
                nodes == positions@.len(),
                node_occupancy@.len() == nodes,
                k <= ids@.len(),
                ids@.len() <= SCALE,
                forall|m: int| 0 <= m < nodes ==> #[trigger] node_occupancy@[m] == occ_tol_count(
                    self.concepts@,
                    ids@.take(k as int),
                    positions@,
                    tolerance as int,
                    m,
                ),
            decreases ids@.len() - k,
        {
            proof {
                assert(ids@.take(k + 1 as int).drop_last() =~= ids@.take(k as int));
                assert(ids@.take(k + 1 as int).last() == ids@[k as int]);
                lemma_occ_tol_bound(
                    self.concepts@,
                    ids@.take(k as int),
                    positions@,
                    tolerance as int,
                );
            }
            let id = ids[k];
            let found_concept = self.get_concept(id);
            match found_concept {
                Some(c) => {
                    proof {
                        lemma_concept_index(self.concepts@, id);
                    }
                    let layer = c.layer;
                    let hit = first_node_within(positions, tolerance, layer);
                    match hit {
                        Some(j) => {
                            proof {
                                lemma_first_tol_node(positions@, tolerance as int, layer as int);
                                assert(node_occupancy@[j as int] == occ_tol_count(
                                    self.concepts@,
                                    ids@.take(k as int),
                                    positions@,
                                    tolerance as int,
                                    j as int,
                                ));
                                assert(node_occupancy@[j as int] <= k);
                            }
                            let current = node_occupancy[j];
                            node_occupancy[j] = current + 1;
                            proof {
                                let ci = concept_index(self.concepts@, id);
                                assert(self.concepts@[ci].layer == layer);
                                assert forall|m: int| 0 <= m < nodes implies
                                    #[trigger] node_occupancy@[m] == occ_tol_count(
                                    self.concepts@,
                                    ids@.take(k + 1 as int),
                                    positions@,
                                    tolerance as int,
                                    m,
                                ) by {
                                    if m != j as int {
                                        assert(first_tol_node(
                                            positions@,
                                            tolerance as int,
                                            self.concepts@[ci].layer as int,
                                        ) == j as int);
                                    }
                                }
                            }
                        },
                        None => {
                            proof {
                                let ci = concept_index(self.concepts@, id);
                                assert(self.concepts@[ci].layer == layer);
                                assert(first_tol_node(
                                    positions@,
                                    tolerance as int,
                                    layer as int,
                                ) < 0);
                            }
                        },
                    }
                },
                None => {},
            }
            k = k + 1;
        }
        proof {
            assert(ids@.take(ids@.len() as int) =~= ids@);
        }
        let stats = self.bubble_stats(ids);
        let final_reynolds = fdiv(stats.1, self.viscosity);
        let mathematical_quotient = whole_quotient(
            experiment.problem.dividend,
            experiment.problem.divisor,
        );
        let mathematical_remainder = whole_remainder(
            experiment.problem.dividend,
            experiment.problem.divisor,
        );
        let is_divisible = mathematical_remainder < 1_000;
        let sigma_stats = experiment.calculate_velocity_sigma();
        let ticks_to_settle = if self.tick_count >= experiment.start_tick {
            self.tick_count - experiment.start_tick
        } else {
            0
        };
        let result = DivisionResult {
            dividend: experiment.problem.dividend,
            divisor: experiment.problem.divisor,
            is_divisible,
            quotient: mathematical_quotient,
            remainder: mathematical_remainder,
            reynolds_number: final_reynolds,
            turbulence_energy: experiment.accumulated_turbulence,
            ticks_to_settle,
            node_occupancy,
            salinity_boost: experiment.salinity_boost,
            velocity_sigma: sigma_stats.1,
            velocity_mean: sigma_stats.0,
            peak_jitter: experiment.peak_jitter,
        };
        let ghost pre_salt = *self;
        self.salinity = experiment.original_salinity;
        proof {
            freeze_wf_unchanged(pre_salt, *self);
        }
        let mut b: usize = 0;
        while b < experiment.bubble_ids.len()
            invariant
                self.wf(),
                b <= experiment.bubble_ids@.len(),
                self.salinity == experiment.original_salinity,
                self.concepts@ == remove_ids(
                    old(self).concepts@,
                    experiment.bubble_ids@.take(b as int),
                ),
                *self == (ConceptFluid {
                    concepts: self.concepts,
                    is_frozen: self.is_frozen,
                    frozen_concept: self.frozen_concept,
                    salinity: self.salinity,
                    ..*old(self)
                }),
                0 <= experiment.original_salinity <= MAG,
            decreases experiment.bubble_ids@.len() - b,
        {
            proof {
                assert(experiment.bubble_ids@.take(b + 1 as int) =~= experiment.bubble_ids@.take(
                    b as int,
                ).push(experiment.bubble_ids@[b as int]));
                lemma_remove_ids_push(
                    old(self).concepts@,
                    experiment.bubble_ids@.take(b as int),
                    experiment.bubble_ids@[b as int],
                );
            }
            let _removed = self.remove_concept(experiment.bubble_ids[b]);
            b = b + 1;
        }
        proof {
            assert(experiment.bubble_ids@.take(experiment.bubble_ids@.len() as int)
                =~= experiment.bubble_ids@);
        }
        let ghost pre_clear = *self;
        self.standing_waves = Vec::new();
        let archived = clone_result(&result);
        self.experiment_results.push(archived);
        proof {
            freeze_wf_unchanged(pre_clear, *self);
        }
        result
    }

    /// Check whether the running division experiment has settled: record
    /// this tick's bubble statistics, and finalize once the bubbles are
    /// nearly stationary after the minimum run of sixty ticks, or once
    /// the experiment times out.
    pub fn check_experiment_settlement(&mut self) -> (r: Option<DivisionResult>)
        requires
            old(self).wf(),
        ensures
            final(self).wf(),
            final(self).tick_count == old(self).tick_count,
            old(self).active_experiment is None ==> r is None && *final(self) == *old(self),
            old(self).active_experiment matches Some(e) ==> {
                let cs = old(self).concepts@;
                let speed_sum = bubble_speed_sum(cs, e.bubble_ids@);
                let speed_max = bubble_speed_max(cs, e.bubble_ids@);
                let found = bubble_found_count(cs, e.bubble_ids@);
                let avg = div_tz(speed_sum, if found >= 1 { found } else { 1 });
                let elapsed = if old(self).tick_count >= e.start_tick {
                    old(self).tick_count - e.start_tick
                } else {
                    0int
                };
                let settled = elapsed >= 60 && speed_max < 50_000 && avg < 20_000;
                let timed_out = elapsed >= e.max_ticks;
                &&& ((r is Some) == (settled || timed_out))
                &&& (r matches Some(res) ==> {
                    &&& res.dividend == e.problem.dividend
                    &&& res.divisor == e.problem.divisor
                    &&& res.quotient == crate::fixed::sat(
                        (e.problem.dividend as int / e.problem.divisor as int) * SCALE,
                    )
                    &&& res.remainder == e.problem.dividend as int % e.problem.divisor as int
                    &&& res.is_divisible == (res.remainder < 1_000)
                    &&& res.salinity_boost == e.salinity_boost
                    &&& final(self).active_experiment is None
                    &&& final(self).salinity == e.original_salinity
                    &&& final(self).standing_waves@.len() == 0
                    &&& final(self).experiment_results@.len() == old(
                        self,
                    ).experiment_results@.len() + 1
                    &&& result_like(final(self).experiment_results@.last(), res)
                    &&& final(self).concepts@ == remove_ids(cs, e.bubble_ids@)
                    &&& *final(self) == (ConceptFluid {
                        concepts: final(self).concepts,
                        is_frozen: final(self).is_frozen,
                        frozen_concept: final(self).frozen_concept,
                        salinity: final(self).salinity,
                        standing_waves: final(self).standing_waves,
                        active_experiment: None,
                        experiment_results: final(self).experiment_results,
                        ..*old(self)
                    })
                })
                &&& (r is None ==> {
                    let reynolds = fx_div(speed_sum, old(self).viscosity as int);
                    let acc1 = fx_add(
                        e.accumulated_turbulence as int,
                        bubble_ke_sum(cs, e.bubble_ids@),
                    );
                    let peak1 = if reynolds > e.peak_reynolds {
                        reynolds
                    } else {
                        e.peak_reynolds as int
                    };
                    &&& final(self).active_experiment matches Some(e2)
                        && DivisionExperiment::recorded_velocity(
                        (DivisionExperiment {
                            accumulated_turbulence: acc1 as i64,
                            peak_reynolds: peak1 as i64,
                            ..e
                        }),
                        e2,
                        avg as i64,
                    )
                    &&& *final(self) == (ConceptFluid {
                        active_experiment: final(self).active_experiment,
                        ..*old(self)
                    })
                })
            },
    {
        let experiment_taken = self.active_experiment.take();
        proof {
            freeze_wf_unchanged(*old(self), *self);
        }
        let mut experiment = match experiment_taken {
            Some(e) => e,
            None => { return None; },
        };
        let stats = self.bubble_stats(&experiment.bubble_ids);
        experiment.accumulated_turbulence = fadd(experiment.accumulated_turbulence, stats.0);
        let reynolds = fdiv(stats.1, self.viscosity);
        proof {
            let s1 = stats.1 as int;
            let v = self.viscosity as int;
            assert(div_tz(s1 * SCALE, v) >= 0) by (nonlinear_arith)
                requires s1 >= 0, v >= 1;
        }
        if reynolds > experiment.peak_reynolds {
            experiment.peak_reynolds = reynolds;
        }
        let avg_velocity = fdivi(stats.1, fmax(stats.3, 1));
        proof {
            let s1 = stats.1 as int;
            let d = if stats.3 as int >= 1 { stats.3 as int } else { 1 };
            assert(div_tz(s1, d) >= 0) by (nonlinear_arith)
                requires s1 >= 0, d >= 1;
        }
        experiment.record_velocity(avg_velocity);
        let ticks_elapsed = if self.tick_count >= experiment.start_tick {
            self.tick_count - experiment.start_tick
        } else {
            0
        };
        let is_settled = ticks_elapsed >= 60 && stats.2 < 50_000 && avg_velocity < 20_000;
        let is_timed_out = ticks_elapsed >= experiment.max_ticks;
        if is_settled || is_timed_out {
            experiment.settled = true;
            let result = self.finalize_experiment(experiment);
            Some(result)
        } else {
            let ghost pre = *self;
            self.active_experiment = Some(experiment);
            proof {
                freeze_wf_unchanged(pre, *self);
            }
            None
        }
    }
}

/// A concept is ready to freeze: at the surface, not already frozen, and
/// its accumulated surface time (with this tick added) has crossed the
/// threshold.
pub open spec fn freeze_eligible(c: Concept, zone: int, threshold: int, dt: int) -> bool {
    &&& c.layer < zone
    &&& !c.is_frozen
    &&& fx_add(c.time_at_surface as int, dt) >= threshold
}

/// The first freeze-eligible concept, or `-1` if none is.
pub open spec fn freeze_candidate(cs: Seq<Concept>, zone: int, threshold: int, dt: int) -> int
    decreases cs.len(),
{
    if cs.len() == 0 {
        -1
    } else if freeze_eligible(cs[0], zone, threshold, dt) {
        0
    } else {
        let t = freeze_candidate(cs.skip(1), zone, threshold, dt);
        if t < 0 { -1 } else { t + 1 }
    }
}

/// `freeze_candidate` finds exactly the first eligible concept.
pub proof fn lemma_freeze_candidate(cs: Seq<Concept>, zone: int, threshold: int, dt: int)
    ensures
        freeze_candidate(cs, zone, threshold, dt) >= 0 ==> {
            &&& freeze_candidate(cs, zone, threshold, dt) < cs.len()
            &&& freeze_eligible(cs[freeze_candidate(cs, zone, threshold, dt)], zone, threshold, dt)
            &&& forall|j: int| 0 <= j < freeze_candidate(cs, zone, threshold, dt)
                ==> !freeze_eligible(#[trigger] cs[j], zone, threshold, dt)
        },
        freeze_candidate(cs, zone, threshold, dt) < 0 ==> forall|j: int|
            0 <= j < cs.len() ==> !freeze_eligible(#[trigger] cs[j], zone, threshold, dt),
    decreases cs.len(),
{
    if cs.len() > 0 && !freeze_eligible(cs[0], zone, threshold, dt) {
        let tail = cs.skip(1);
        let t = freeze_candidate(tail, zone, threshold, dt);
        lemma_freeze_candidate(tail, zone, threshold, dt);
        if t >= 0 {
            assert(tail[t] == cs[t + 1]);
            assert forall|j: int| 0 <= j < t + 1 implies !freeze_eligible(
                #[trigger] cs[j],
                zone,
                threshold,
                dt,
            ) by {
                if j > 0 {
                    assert(tail[j - 1] == cs[j]);
                }
            }
        } else {
            assert forall|j: int| 0 <= j < cs.len() implies !freeze_eligible(
                #[trigger] cs[j],
                zone,
                threshold,
                dt,
            ) by {
                if j > 0 {
                    assert(tail[j - 1] == cs[j]);
                }
            }
        }
    }
}

/// The saturating sum of the speeds of all concepts.
pub open spec fn speed_sum(cs: Seq<Concept>) -> int
    decreases cs.len(),
{
    if cs.len() == 0 {
        0
    } else {
        fx_add(speed_sum(cs.drop_last()), mag(cs.last().velocity as int))
    }
}

/// The saturating speed sum stays within the representable band.
pub proof fn lemma_speed_sum_ok(cs: Seq<Concept>)
    ensures
        0 <= speed_sum(cs) <= MAG,
    decreases cs.len(),
{
    if cs.len() > 0 {
        lemma_speed_sum_ok(cs.drop_last());
    }
}

impl ConceptFluid {
    /// How a single concept's surface-dwell state advances in one tick,
    /// when `cand` is the index that freezes (or `-1`).
    pub open spec fn spec_freeze_step(self, i: int, cand: int, dt: int) -> Concept {
        let c = self.concepts@[i];
        if c.layer < self.freeze_zone {
            Concept {
                time_at_surface: fx_add(c.time_at_surface as int, dt) as i64,
                is_frozen: c.is_frozen || i == cand,
                ..c
            }
        } else {
            Concept { time_at_surface: 0, is_frozen: false, ..c }
        }
    }

    /// Exactly what the surface-dwell / freeze-detection pass does.
    pub open spec fn freeze_pass_rel(pre: ConceptFluid, post: ConceptFluid, ev: Option<FluidEvent>, dt: i64) -> bool {
        &&& (post.wf())
        &&& (({
                let cand = if pre.is_frozen {
                    -1int
                } else {
                    freeze_candidate(
                        pre.concepts@,
                        pre.freeze_zone as int,
                        pre.freeze_threshold as int,
                        dt as int,
                    )
                };
                &&& post.concepts@.len() == pre.concepts@.len()
                &&& forall|i: int| 0 <= i < pre.concepts@.len()
                    ==> #[trigger] post.concepts@[i] == pre.spec_freeze_step(
                        i,
                        cand,
                        dt as int,
                    )
                &&& ((ev is Some) <==> cand >= 0)
                &&& (ev matches Some(e) ==> e matches FluidEvent::Freeze {
                    concept_id,
                    concept_name,
                } && concept_id == pre.concepts@[cand].id && concept_name@
                    == pre.concepts@[cand].name@)
                &&& post == (ConceptFluid {
                    concepts: post.concepts,
                    is_frozen: post.is_frozen,
                    frozen_concept: post.frozen_concept,
                    ..pre
                })
            }))
    }

    /// Surface-dwell tracking and freeze detection: every concept inside
    /// the freeze zone accumulates surface time and freezes on first
    /// crossing the threshold, but only one concept can hold a freeze at
    /// a time; leaving the zone resets the timer, thaws the concept, and
    /// releases the global freeze it held.
    pub fn pass_freeze(&mut self, dt: i64) -> (r: Option<FluidEvent>)
        requires
            old(self).wf(),
            0 < dt <= SCALE,
        ensures
            final(self).wf(),
            ConceptFluid::freeze_pass_rel(*old(self), *final(self), r, dt),
    {
        let ghost zone = self.freeze_zone as int;
        let ghost threshold = self.freeze_threshold as int;
        let ghost cand = if old(self).is_frozen {
            -1int
        } else {
            freeze_candidate(old(self).concepts@, zone, threshold, dt as int)
        };
        proof {
            lemma_freeze_candidate(old(self).concepts@, zone, threshold, dt as int);
        }
        let mut newly_frozen: Option<(u128, String)> = None;
        let mut lost_freeze = false;
        let mut can_freeze = !self.is_frozen;
        let n = self.concepts.len();
        let mut k: usize = 0;
        while k < n
            invariant
                old(self).wf(),
                0 < dt <= SCALE,
                zone == old(self).freeze_zone as int,
                threshold == old(self).freeze_threshold as int,
                cand == (if old(self).is_frozen {
                    -1int
                } else {
                    freeze_candidate(old(self).concepts@, zone, threshold, dt as int)
                }),
                n == self.concepts@.len(),
                n == old(self).concepts@.len(),
                k <= n,
                forall|i: int| 0 <= i < k ==> #[trigger] self.concepts@[i] == old(
                    self,
                ).spec_freeze_step(i, cand, dt as int),
                forall|i: int| k <= i < n ==> #[trigger] self.concepts@[i] == old(
                    self,
                ).concepts@[i],
                can_freeze == (!old(self).is_frozen && (cand < 0 || cand >= k)),
                ((newly_frozen is Some) <==> (0 <= cand < k)),
                newly_frozen matches Some(p) ==> p.0 == old(self).concepts@[cand].id && p.1@
                    == old(self).concepts@[cand].name@,
                lost_freeze == exists|i: int|
                    0 <= i < k && (#[trigger] old(self).concepts@[i]).is_frozen && old(
                    self,
                ).concepts@[i].layer >= zone,
                *self == (ConceptFluid { concepts: self.concepts, ..*old(self) }),
            decreases n - k,
        {
            proof {
                lemma_freeze_candidate(old(self).concepts@, zone, threshold, dt as int);
            }
            let in_zone = self.concepts[k].layer < self.freeze_zone;
            if in_zone {
                let t = fadd(self.concepts[k].time_at_surface, dt);
                let eligible = can_freeze && !self.concepts[k].is_frozen
                    && t >= self.freeze_threshold;
                if eligible {
                    let id = self.concepts[k].id;
                    let name_copy = crate::text::copied(self.concepts[k].name.as_str());
                    newly_frozen = Some((id, name_copy));
                    can_freeze = false;
                    let c = &mut self.concepts[k];
                    c.time_at_surface = t;
                    c.is_frozen = true;
                } else {
                    let c = &mut self.concepts[k];
                    c.time_at_surface = t;
                }
            } else {
                if self.concepts[k].is_frozen {
                    lost_freeze = true;
                }
                let c = &mut self.concepts[k];
                c.time_at_surface = 0;
                c.is_frozen = false;
            }
            k = k + 1;
        }
        let result = match newly_frozen {
            Some(p) => {
                self.is_frozen = true;
                self.frozen_concept = Some(p.0);
                Some(FluidEvent::Freeze { concept_id: p.0, concept_name: p.1 })
            },
            None => {
                if lost_freeze {
                    self.is_frozen = false;
                    self.frozen_concept = None;
                }
                None
            },
        };
        proof {
            lemma_freeze_candidate(old(self).concepts@, zone, threshold, dt as int);
            if cand >= 0 {
                assert(self.concepts@[cand].is_frozen);
                assert forall|i: int, j: int|
                    0 <= i < self.concepts@.len() && 0 <= j < self.concepts@.len()
                        && (#[trigger] self.concepts@[i]).is_frozen && (
                    #[trigger] self.concepts@[j]).is_frozen implies i == j by {
                    if i != cand {
                        assert(old(self).concepts@[i].is_frozen);
                        assert(old(self).is_frozen);
                    }
                    if j != cand {
                        assert(old(self).concepts@[j].is_frozen);
                        assert(old(self).is_frozen);
                    }
                }
            } else if old(self).is_frozen {
                let w = choose|i: int|
                    0 <= i < old(self).concepts@.len() && (
                    #[trigger] old(self).concepts@[i]).is_frozen;
                if lost_freeze {
                    assert forall|i: int| 0 <= i < self.concepts@.len() implies !(
                    #[trigger] self.concepts@[i]).is_frozen by {
                        if old(self).concepts@[i].is_frozen {
                            assert(i == w);
                        }
                    }
                } else {
                    assert(old(self).concepts@[w].layer < zone);
                    assert(self.concepts@[w].is_frozen);
                    assert forall|i: int, j: int|
                        0 <= i < self.concepts@.len() && 0 <= j < self.concepts@.len()
                            && (#[trigger] self.concepts@[i]).is_frozen && (
                        #[trigger] self.concepts@[j]).is_frozen implies i == j by {
                        assert(old(self).concepts@[i].is_frozen);
                        assert(old(self).concepts@[j].is_frozen);
                    }
                    if old(self).frozen_concept is Some {
                        let fid = old(self).frozen_concept->0;
                        let w2 = choose|i: int|
                            0 <= i < old(self).concepts@.len() && (
                            #[trigger] old(self).concepts@[i]).is_frozen && old(
                            self,
                        ).concepts@[i].id == fid;
                        assert(self.concepts@[w2].is_frozen && self.concepts@[w2].id == fid);
                    }
                }
            } else {
                assert forall|i: int| 0 <= i < self.concepts@.len() implies !(
                #[trigger] self.concepts@[i]).is_frozen by {
                    assert(!old(self).concepts@[i].is_frozen);
                    assert(!freeze_eligible(old(self).concepts@[i], zone, threshold, dt as int));
                }
            }
        }
        result
    }

    /// Turbulence bookkeeping: turbulence begins when the Reynolds number
    /// (mean speed over viscosity) exceeds the threshold, its energy then
    /// decays geometrically each tick, and below a tenth of a unit it
    /// subsides to exactly zero.
        /// Exactly what the turbulence bookkeeping pass does.
    pub open spec fn turbulence_pass_rel(pre: ConceptFluid, post: ConceptFluid, evs: Seq<FluidEvent>, dt: i64) -> bool {
        &&& (post.wf())
        &&& (({
                let n = pre.concepts@.len() as int;
                let mean = div_tz(speed_sum(pre.concepts@), if n >= 1 { n } else { 1 });
                let reynolds = fx_div(mean, pre.viscosity as int);
                let onset = reynolds > pre.reynolds_threshold && !pre.is_turbulent;
                let e0 = if onset {
                    fx_div(reynolds, pre.reynolds_threshold as int)
                } else {
                    pre.turbulence_energy as int
                };
                let active = pre.is_turbulent || onset;
                let e1 = fx_mul(
                    e0,
                    fx_sub(SCALE as int, fx_mul(pre.turbulence_decay as int, dt as int)),
                );
                &&& (active ==> {
                    &&& (e1 < 100_000 ==> !post.is_turbulent
                        && post.turbulence_energy == 0)
                    &&& (e1 >= 100_000 ==> post.is_turbulent
                        && post.turbulence_energy == e1)
                })
                &&& (!active ==> !post.is_turbulent && post.turbulence_energy == 0)
                &&& evs.len() == (if onset { 1int } else { 0int }) + (if active && e1 < 100_000 {
                    1int
                } else {
                    0int
                })
                &&& (onset ==> (evs[0] matches FluidEvent::TurbulenceOnset {
                    reynolds_number,
                    energy,
                } && reynolds_number == reynolds && energy == fx_div(
                    reynolds,
                    pre.reynolds_threshold as int,
                )))
                &&& (active && e1 < 100_000 ==> evs.last() matches FluidEvent::TurbulenceSubsided)
                &&& post == (ConceptFluid {
                    is_turbulent: post.is_turbulent,
                    turbulence_energy: post.turbulence_energy,
                    ..pre
                })
            }))
    }

    /// Turbulence bookkeeping: turbulence begins when the Reynolds number
    /// (mean speed over viscosity) exceeds the threshold, its energy then
    /// decays geometrically each tick, and below a tenth of a unit it
    /// subsides to exactly zero.
    pub fn pass_turbulence(&mut self, dt: i64) -> (r: Vec<FluidEvent>)
        requires
            old(self).wf(),
            0 < dt <= SCALE,
        ensures
            final(self).wf(),
            ConceptFluid::turbulence_pass_rel(*old(self), *final(self), r@, dt),
    {
        let mut events: Vec<FluidEvent> = Vec::new();
        let n = self.concepts.len();
        let mut sum: i64 = 0;
        let mut k: usize = 0;
        while k < n
            invariant
                old(self).wf(),
                *self == *old(self),
                n == self.concepts@.len(),
                k <= n,
                sum == speed_sum(self.concepts@.take(k as int)),
                0 <= sum <= MAG,
            decreases n - k,
        {
            proof {
                assert(self.concepts@.take(k + 1 as int).drop_last() =~= self.concepts@.take(
                    k as int,
                ));
            }
            sum = fadd(sum, fabs(self.concepts[k].velocity));
            k = k + 1;
        }
        proof {
            assert(self.concepts@.take(n as int) =~= self.concepts@);
        }
        let mean = if n == 0 {
            0
        } else if (n as u64) > (MAG as u64) {
            proof {
                lemma_speed_sum_ok(self.concepts@);
                assert(speed_sum(self.concepts@) / (n as int) == 0) by (nonlinear_arith)
                    requires
                        0 <= speed_sum(self.concepts@) <= MAG,
                        speed_sum(self.concepts@) < n as int;
            }
            0
        } else {
            fdivi(sum, n as i64)
        };
        proof {
            let gn = old(self).concepts@.len() as int;
            let d = if gn >= 1 { gn } else { 1 };
            if n == 0 {
                assert(div_tz(speed_sum(old(self).concepts@), d) == 0);
            }
            assert(mean >= 0) by (nonlinear_arith)
                requires mean == div_tz(sum as int, if n as int >= 1 { n as int } else { 1 }), sum
                    >= 0;
        }
        let reynolds_number = fdiv(mean, self.viscosity);
        proof {
            let m = mean as int;
            let v = self.viscosity as int;
            assert(div_tz(m * SCALE, v) >= 0) by (nonlinear_arith)
                requires m >= 0, v >= 1;
        }
        if reynolds_number > self.reynolds_threshold && !self.is_turbulent {
            self.is_turbulent = true;
            let e = fdiv(reynolds_number, self.reynolds_threshold);
            proof {
                let rn = reynolds_number as int;
                let th = self.reynolds_threshold as int;
                assert(div_tz(rn * SCALE, th) >= 0) by (nonlinear_arith)
                    requires rn >= 0, th >= 1;
            }
            self.turbulence_energy = e;
            events.push(
                FluidEvent::TurbulenceOnset { reynolds_number, energy: self.turbulence_energy },
            );
        }
        if self.is_turbulent {
            let factor = fsub(SCALE, fmul(self.turbulence_decay, dt));
            proof {
                crate::fixed::lemma_fx_mul_nonneg(self.turbulence_decay as int, dt as int);
            }
            let energy = self.turbulence_energy;
            let e1 = fmul(energy, factor);
            proof {
                crate::fixed::lemma_fx_mul_nonneg(energy as int, factor as int);
            }
            self.turbulence_energy = e1;
            if self.turbulence_energy < 100_000 {
                self.is_turbulent = false;
                self.turbulence_energy = 0;
                events.push(FluidEvent::TurbulenceSubsided);
            }
        }
        proof {
            freeze_wf_unchanged(*old(self), *self);
        }
        events
    }
}

/// Two fluid states with the same physics environment (parameters,
/// vents, waves, continents, turbulence and damping) drive a concept
/// identically, whatever their concept stores hold.
#[verifier::rlimit(100)]
proof fn lemma_step_env_same(a: ConceptFluid, b: ConceptFluid, c: Concept, dt: int)
    requires
        a.salinity == b.salinity,
        a.viscosity == b.viscosity,
        a.drag_coefficient == b.drag_coefficient,
        a.surface_tension == b.surface_tension,
        a.activation_zone == b.activation_zone,
        a.shear_thinning_coefficient == b.shear_thinning_coefficient,
        a.shear_threshold == b.shear_threshold,
        a.is_turbulent == b.is_turbulent,
        a.turbulence_energy == b.turbulence_energy,
        a.damping_factor == b.damping_factor,
        a.core_truths == b.core_truths,
        a.standing_waves == b.standing_waves,
        a.continents == b.continents,
    ensures
        a.spec_velocity_after_forces(c, dt) == b.spec_velocity_after_forces(c, dt),
        forall|raw: int, v: int, hb: bool, e0: int, i0: int|
            #[trigger] a.spec_settle(raw, v, hb, e0, i0, dt) == b.spec_settle(
                raw,
                v,
                hb,
                e0,
                i0,
                dt,
            ),
{
    assert(a.spec_effective_viscosity(c.velocity as int) == b.spec_effective_viscosity(
        c.velocity as int,
    ));
    assert forall|raw: int, v: int, hb: bool, e0: int, i0: int|
        #[trigger] a.spec_settle(raw, v, hb, e0, i0, dt) == b.spec_settle(
        raw,
        v,
        hb,
        e0,
        i0,
        dt,
    ) by {
        assert(a.spec_cascade(v, e0, i0, dt) == b.spec_cascade(v, e0, i0, dt));
        let v3a = a.spec_settle(raw, v, hb, e0, i0, dt);
        let v3b = b.spec_settle(raw, v, hb, e0, i0, dt);
    }
}

/// One non-suppressed concept's computed step equals the force pass's
/// specified step, read off the helper results.
#[verifier::rlimit(100)]
proof fn lemma_forces_step(
    pre: ConceptFluid,
    env: ConceptFluid,
    c0: Concept,
    k: int,
    dt: i64,
    v1: i64,
    raw: i64,
    enc: u32,
    settled: (i64, i64, bool, i64, i64, i64),
)
    requires
        0 <= k < pre.concepts@.len(),
        c0 == pre.concepts@[k],
        !(pre.is_frozen && !c0.is_frozen),
        env.salinity == pre.salinity,
        env.viscosity == pre.viscosity,
        env.drag_coefficient == pre.drag_coefficient,
        env.surface_tension == pre.surface_tension,
        env.activation_zone == pre.activation_zone,
        env.shear_thinning_coefficient == pre.shear_thinning_coefficient,
        env.shear_threshold == pre.shear_threshold,
        env.is_turbulent == pre.is_turbulent,
        env.turbulence_energy == pre.turbulence_energy,
        env.damping_factor == pre.damping_factor,
        env.core_truths == pre.core_truths,
        env.standing_waves == pre.standing_waves,
        env.continents == pre.continents,
        v1 == env.spec_velocity_after_forces(c0, dt as int),
        raw == fx_add(c0.layer as int, fx_mul(v1 as int, dt as int)),
        enc == encounters_after(
            env.core_truths@,
            c0.layer as int,
            c0.density as int,
            c0.vent_encounters,
        ),
        ({
            let s = env.spec_settle(
                raw as int,
                v1 as int,
                c0.has_broken_surface,
                c0.eddy_scale as int,
                c0.integration as int,
                dt as int,
            );
            &&& settled.0 == s.0
            &&& settled.1 == s.1
            &&& settled.2 == s.2
            &&& settled.3 == s.3
            &&& settled.4 == s.4
            &&& settled.5 == s.5
        }),
    ensures
        (Concept {
            velocity: settled.0,
            layer: settled.1,
            has_broken_surface: settled.2,
            eddy_scale: settled.3,
            integration: settled.4,
            vent_encounters: enc,
            ..c0
        }) == pre.spec_concept_step(k, dt as int),
        pre.spec_step_gain(k, dt as int) == settled.5,
{
    reveal(ConceptFluid::spec_concept_step);
    reveal(ConceptFluid::spec_step_gain);
    lemma_step_env_same(pre, env, c0, dt as int);
}

/// The suppressed step is the specified step for a concept that does not
/// hold the active freeze, and contributes no integration gain.
proof fn lemma_suppressed_step(pre: ConceptFluid, k: int, dt: i64)
    requires
        0 <= k < pre.concepts@.len(),
        pre.is_frozen,
        !pre.concepts@[k].is_frozen,
    ensures
        pre.spec_concept_step(k, dt as int) == spec_suppressed_step(pre.concepts@[k], dt as int),
        pre.spec_step_gain(k, dt as int) == 0,
{
    reveal(ConceptFluid::spec_concept_step);
    reveal(ConceptFluid::spec_step_gain);
}

/// One more concept's gain extends the running total.
proof fn lemma_gains_step(pre: ConceptFluid, dt: i64, k: int)
    requires
        0 <= k,
    ensures
        pre.gains_sum(dt as int, k + 1) == fx_add(
            pre.gains_sum(dt as int, k),
            pre.spec_step_gain(k, dt as int),
        ),
        pre.gains_sum(dt as int, 0) == pre.total_integration,
{
    reveal(ConceptFluid::gains_sum);
}

/// The freeze bookkeeping survives any change that keeps every concept's
/// freeze flag and identifier, possibly appending unfrozen concepts.
proof fn freeze_wf_pointwise(pre: ConceptFluid, post: ConceptFluid)
    requires
        pre.freeze_wf(),
        post.concepts@.len() >= pre.concepts@.len(),
        forall|i: int| 0 <= i < pre.concepts@.len() ==> {
            &&& (#[trigger] post.concepts@[i]).is_frozen == pre.concepts@[i].is_frozen
            &&& post.concepts@[i].id == pre.concepts@[i].id
        },
        forall|i: int| pre.concepts@.len() <= i < post.concepts@.len()
            ==> !(#[trigger] post.concepts@[i]).is_frozen,
        post.is_frozen == pre.is_frozen,
        post.frozen_concept == pre.frozen_concept,
    ensures
        post.freeze_wf(),
{
    let n = pre.concepts@.len() as int;
    assert forall|i: int, j: int|
        0 <= i < post.concepts@.len() && 0 <= j < post.concepts@.len()
            && (#[trigger] post.concepts@[i]).is_frozen && (
        #[trigger] post.concepts@[j]).is_frozen implies i == j by {
        assert(i < n && j < n);
        assert(pre.concepts@[i].is_frozen && pre.concepts@[j].is_frozen);
    }
    if pre.is_frozen {
        let w = choose|i: int|
            0 <= i < pre.concepts@.len() && (#[trigger] pre.concepts@[i]).is_frozen;
        assert(post.concepts@[w].is_frozen);
        if pre.frozen_concept is Some {
            let fid = pre.frozen_concept->0;
            let w2 = choose|i: int|
                0 <= i < pre.concepts@.len() && (#[trigger] pre.concepts@[i]).is_frozen
                    && pre.concepts@[i].id == fid;
            assert(post.concepts@[w2].is_frozen && post.concepts@[w2].id == fid);
        }
    } else {
        assert forall|i: int| 0 <= i < post.concepts@.len() implies !(
        #[trigger] post.concepts@[i]).is_frozen by {
            if i < n {
                assert(!pre.concepts@[i].is_frozen);
            }
        }
    }
}

/// The catalysis bonus an ore type grants a concept.
pub open spec fn type_bonus(t: OreType, c: Concept) -> int {
    if t is Art && c.area > 600_000 {
        400_000
    } else if t is Code && c.density < 500_000 {
        400_000
    } else if t is Insight && c.integration > 500_000 {
        500_000
    } else if t is Writing && c.area > 500_000 {
        300_000
    } else {
        100_000
    }
}

/// The reactivity score of a concept against one ore.
pub open spec fn reactivity_of(ore: PreciousOre, c: Concept) -> int {
    fx_add(
        fx_add(fx_mul(ore.integration_value as int, 300_000), fx_mul(c.area as int, 200_000)),
        type_bonus(ore.ore_type, c),
    )
}

/// Does this ore react with this concept: close enough in depth, and
/// reactive enough?
pub open spec fn ore_reacts(ore: PreciousOre, c: Concept) -> bool {
    &&& mag(c.layer - ore.depth as int) < 150_000
    &&& reactivity_of(ore, c) > 600_000
}

/// The first ore that reacts with the concept, or `-1`.
pub open spec fn reactive_ore(ores: Seq<PreciousOre>, c: Concept) -> int
    decreases ores.len(),
{
    if ores.len() == 0 {
        -1
    } else if ore_reacts(ores[0], c) {
        0
    } else {
        let t = reactive_ore(ores.skip(1), c);
        if t < 0 { -1 } else { t + 1 }
    }
}

/// `reactive_ore` finds exactly the first reacting ore.
pub proof fn lemma_reactive_ore(ores: Seq<PreciousOre>, c: Concept)
    ensures
        reactive_ore(ores, c) >= 0 ==> {
            &&& reactive_ore(ores, c) < ores.len()
            &&& ore_reacts(ores[reactive_ore(ores, c)], c)
            &&& forall|j: int| 0 <= j < reactive_ore(ores, c)
                ==> !ore_reacts(#[trigger] ores[j], c)
        },
        reactive_ore(ores, c) < 0 ==> forall|j: int| 0 <= j < ores.len() ==> !ore_reacts(
            #[trigger] ores[j],
            c,
        ),
    decreases ores.len(),
{
    if ores.len() > 0 && !ore_reacts(ores[0], c) {
        let tail = ores.skip(1);
        let t = reactive_ore(tail, c);
        lemma_reactive_ore(tail, c);
        if t >= 0 {
            assert(tail[t] == ores[t + 1]);
            assert forall|j: int| 0 <= j < t + 1 implies !ore_reacts(#[trigger] ores[j], c) by {
                if j > 0 {
                    assert(tail[j - 1] == ores[j]);
                }
            }
        } else {
            assert forall|j: int| 0 <= j < ores.len() implies !ore_reacts(
                #[trigger] ores[j],
                c,
            ) by {
                if j > 0 {
                    assert(tail[j - 1] == ores[j]);
                }
            }
        }
    }
}

/// Is this concept catalyzing this tick: ballasted, near the floor, and
/// with a reacting ore available?
pub open spec fn catalyzing(ores: Seq<PreciousOre>, c: Concept) -> bool {
    &&& c.ballast > 0
    &&& c.layer > 800_000
    &&& reactive_ore(ores, c) >= 0
}

/// How many of the given concepts catalyze.
pub open spec fn cat_count(cs: Seq<Concept>, ores: Seq<PreciousOre>) -> int
    decreases cs.len(),
{
    if cs.len() == 0 {
        0
    } else {
        cat_count(cs.drop_last(), ores) + if catalyzing(ores, cs.last()) { 1int } else { 0int }
    }
}

/// Catalysis counts never exceed the number of concepts.
pub proof fn lemma_cat_count_bound(cs: Seq<Concept>, ores: Seq<PreciousOre>)
    ensures
        0 <= cat_count(cs, ores) <= cs.len(),
    decreases cs.len(),
{
    if cs.len() > 0 {
        lemma_cat_count_bound(cs.drop_last(), ores);
    }
}

/// Does this concept evaporate this tick?
pub open spec fn evaporates(c: Concept, zone: int, threshold: int) -> bool {
    &&& c.layer < zone
    &&& c.integration >= threshold
    &&& !c.has_evaporated
}

/// How many of the given concepts evaporate.
pub open spec fn evap_count(cs: Seq<Concept>, zone: int, threshold: int) -> int
    decreases cs.len(),
{
    if cs.len() == 0 {
        0
    } else {
        evap_count(cs.drop_last(), zone, threshold) + if evaporates(cs.last(), zone, threshold) {
            1int
        } else {
            0int
        }
    }
}

/// Evaporation counts never exceed the number of concepts.
pub proof fn lemma_evap_count_bound(cs: Seq<Concept>, zone: int, threshold: int)
    ensures
        0 <= evap_count(cs, zone, threshold) <= cs.len(),
    decreases cs.len(),
{
    if cs.len() > 0 {
        lemma_evap_count_bound(cs.drop_last(), zone, threshold);
    }
}

/// Evaporation counts grow with the prefix.
pub proof fn lemma_evap_count_mono(cs: Seq<Concept>, zone: int, threshold: int, i: int, k: int)
    requires
        0 <= i <= k <= cs.len(),
    ensures
        evap_count(cs.take(i), zone, threshold) <= evap_count(cs.take(k), zone, threshold),
    decreases k - i,
{
    if i < k {
        lemma_evap_count_mono(cs, zone, threshold, i, k - 1);
        assert(cs.take(k).drop_last() =~= cs.take(k - 1));
    }
}

/// Catalysis counts grow with the prefix.
pub proof fn lemma_cat_count_mono(cs: Seq<Concept>, ores: Seq<PreciousOre>, i: int, k: int)
    requires
        0 <= i <= k <= cs.len(),
    ensures
        cat_count(cs.take(i), ores) <= cat_count(cs.take(k), ores),
    decreases k - i,
{
    if i < k {
        lemma_cat_count_mono(cs, ores, i, k - 1);
        assert(cs.take(k).drop_last() =~= cs.take(k - 1));
    }
}

/// How many ores in the run have the given type.
pub open spec fn ore_type_count(ores: Seq<PreciousOre>, t: OreType) -> int
    decreases ores.len(),
{
    if ores.len() == 0 {
        0
    } else {
        ore_type_count(ores.drop_last(), t) + if ores.last().ore_type == t { 1int } else { 0int }
    }
}

/// The dominant ore type: the most frequent, ties broken in declaration
/// order, and wisdom when there is no ore at all.
pub open spec fn dominant_ore_type(ores: Seq<PreciousOre>) -> OreType {
    if ores.len() == 0 {
        OreType::Insight
    } else {
        let a = ore_type_count(ores, OreType::Art);
        let c = ore_type_count(ores, OreType::Code);
        let i = ore_type_count(ores, OreType::Insight);
        let w = ore_type_count(ores, OreType::Writing);
        if a >= c && a >= i && a >= w {
            OreType::Art
        } else if c >= i && c >= w {
            OreType::Code
        } else if i >= w {
            OreType::Insight
        } else {
            OreType::Writing
        }
    }
}

/// The saturating sum of the depths of a run of ores.
pub open spec fn ore_depth_sum(ores: Seq<PreciousOre>) -> int
    decreases ores.len(),
{
    if ores.len() == 0 {
        0
    } else {
        fx_add(ore_depth_sum(ores.drop_last()), ores.last().depth as int)
    }
}

/// The saturating sum of the integration values of a run of ores.
pub open spec fn ore_integration_sum(ores: Seq<PreciousOre>) -> int
    decreases ores.len(),
{
    if ores.len() == 0 {
        0
    } else {
        fx_add(ore_integration_sum(ores.drop_last()), ores.last().integration_value as int)
    }
}

/// The first ore (in deposit order) that reacts with the concept.
fn find_reactive_ore(ores: &Vec<PreciousOre>, c: &Concept) -> (r: Option<usize>)
    requires
        forall|j: int| 0 <= j < ores@.len() ==> (#[trigger] ores@[j]).wf(),
        c.wf(),
    ensures
        (r is Some) <==> reactive_ore(ores@, *c) >= 0,
        r matches Some(j) ==> j == reactive_ore(ores@, *c),
{
    proof {
        lemma_reactive_ore(ores@, *c);
    }
    let n = ores.len();
    let mut k: usize = 0;
    while k < n
        invariant
            forall|j: int| 0 <= j < ores@.len() ==> (#[trigger] ores@[j]).wf(),
            c.wf(),
            n == ores@.len(),
            k <= n,
            forall|j: int| 0 <= j < k ==> !ore_reacts(#[trigger] ores@[j], *c),
        decreases n - k,
    {
        let ore = &ores[k];
        let depth_diff = fabs(fsub(c.layer, ore.depth));
        if depth_diff < 150_000 {
            let reactivity = fadd(
                fadd(fmul(ore.integration_value, 300_000), fmul(c.area, 200_000)),
                if (match ore.ore_type {
                    OreType::Art => c.area > 600_000,
                    OreType::Code => false,
                    OreType::Insight => false,
                    OreType::Writing => false,
                }) {
                    400_000
                } else if (match ore.ore_type {
                    OreType::Code => c.density < 500_000,
                    _ => false,
                }) {
                    400_000
                } else if (match ore.ore_type {
                    OreType::Insight => c.integration > 500_000,
                    _ => false,
                }) {
                    500_000
                } else if (match ore.ore_type {
                    OreType::Writing => c.area > 500_000,
                    _ => false,
                }) {
                    300_000
                } else {
                    100_000
                },
            );
            if reactivity > 600_000 {
                proof {
                    lemma_reactive_ore(ores@, *c);
                    let fi = reactive_ore(ores@, *c);
                    if fi < 0 {
                        assert(!ore_reacts(ores@[k as int], *c));
                    } else if fi < k as int {
                        assert(ore_reacts(ores@[fi], *c));
                        assert(!ore_reacts(ores@[fi], *c));
                    } else if fi > k as int {
                        assert(!ore_reacts(ores@[k as int], *c));
                    }
                }
                return Some(k);
            }
        }
        k = k + 1;
    }
    proof {
        lemma_reactive_ore(ores@, *c);
    }
    None
}

impl ConceptFluid {
    /// Ballast-driven ore catalysis: each ballasted concept near the
    /// floor reacts with its first sufficiently reactive ore deposit,
    /// synthesizing one light "solution" concept, clearing the ballast,
    /// and emitting one event; at most one reaction per concept per tick.
    #[verifier::rlimit(100)]
        /// Exactly what the ore-catalysis pass does.
    pub open spec fn catalysis_pass_rel(pre: ConceptFluid, post: ConceptFluid, evs: Seq<FluidEvent>) -> bool {
        &&& (post.wf())
        &&& (post.concepts@.len() == pre.concepts@.len() + cat_count(
                pre.concepts@,
                pre.ore_deposits@,
            ))
        &&& (forall|i: int| 0 <= i < pre.concepts@.len()
                ==> #[trigger] post.concepts@[i] == (if catalyzing(
                    pre.ore_deposits@,
                    pre.concepts@[i],
                ) {
                    Concept { ballast: 0, ..pre.concepts@[i] }
                } else {
                    pre.concepts@[i]
                }))
        &&& (forall|i: int|
                0 <= i < pre.concepts@.len() && catalyzing(
                    pre.ore_deposits@,
                    #[trigger] pre.concepts@[i],
                ) ==> {
                    let c = pre.concepts@[i];
                    let o = pre.ore_deposits@[reactive_ore(pre.ore_deposits@, c)];
                    let s = post.concepts@[pre.concepts@.len() + cat_count(
                        pre.concepts@.take(i),
                        pre.ore_deposits@,
                    )];
                    &&& s.density == 200_000
                    &&& s.buoyancy == 200_000
                    &&& s.layer == o.depth
                    &&& s.velocity == -500_000
                    &&& s.area == fx_add(c.area as int, 200_000)
                    &&& s.integration == o.integration_value
                    &&& s.is_solution
                    &&& !s.is_frozen
                })
        &&& (evs.len() == cat_count(pre.concepts@, pre.ore_deposits@))
        &&& (forall|i: int|
                0 <= i < pre.concepts@.len() && catalyzing(
                    pre.ore_deposits@,
                    #[trigger] pre.concepts@[i],
                ) ==> {
                    let c = pre.concepts@[i];
                    let o = pre.ore_deposits@[reactive_ore(pre.ore_deposits@, c)];
                    evs[cat_count(pre.concepts@.take(i), pre.ore_deposits@)]
                        matches FluidEvent::OreCatalysis { problem, ore, solution, reactivity }
                        && problem@ == c.name@ && ore@ == o.name@ && reactivity == reactivity_of(
                        o,
                        c,
                    )
                })
        &&& (post == (ConceptFluid { concepts: post.concepts, ..pre }))
    }

    /// Ballast-driven ore catalysis: each ballasted concept near the
    /// floor reacts with its first sufficiently reactive ore deposit,
    /// synthesizing one light "solution" concept, clearing the ballast,
    /// and emitting one event; at most one reaction per concept per tick.
    #[verifier::rlimit(100)]
    pub fn pass_catalysis(&mut self) -> (r: Vec<FluidEvent>)
        requires
            old(self).wf(),
        ensures
            final(self).wf(),
            ConceptFluid::catalysis_pass_rel(*old(self), *final(self), r@),
    {
        let mut events: Vec<FluidEvent> = Vec::new();
        let n = self.concepts.len();
        let ghost ores = old(self).ore_deposits@;
        let ghost olds = old(self).concepts@;
        let mut k: usize = 0;
        while k < n
            invariant
                old(self).wf(),
                ores == old(self).ore_deposits@,
                olds == old(self).concepts@,
                n == olds.len(),
                k <= n,
                self.concepts@.len() == n + cat_count(olds.take(k as int), ores),
                forall|i: int| 0 <= i < k ==> #[trigger] self.concepts@[i] == (if catalyzing(
                    ores,
                    olds[i],
                ) {
                    Concept { ballast: 0, ..olds[i] }
                } else {
                    olds[i]
                }),
                forall|i: int| k <= i < n ==> #[trigger] self.concepts@[i] == olds[i],
                forall|i: int| 0 <= i < k && catalyzing(ores, #[trigger] olds[i]) ==> {
                    let c = olds[i];
                    let o = ores[reactive_ore(ores, c)];
                    let s = self.concepts@[n + cat_count(olds.take(i), ores)];
                    &&& s.density == 200_000
                    &&& s.buoyancy == 200_000
                    &&& s.layer == o.depth
                    &&& s.velocity == -500_000
                    &&& s.area == fx_add(c.area as int, 200_000)
                    &&& s.integration == o.integration_value
                    &&& s.is_solution
                    &&& !s.is_frozen
                    &&& s.wf()
                },
                forall|i: int| n <= i < self.concepts@.len()
                    ==> !(#[trigger] self.concepts@[i]).is_frozen
                        && (#[trigger] self.concepts@[i]).wf(),
                events@.len() == cat_count(olds.take(k as int), ores),
                forall|i: int| 0 <= i < k && catalyzing(ores, #[trigger] olds[i]) ==> {
                    let c = olds[i];
                    let o = ores[reactive_ore(ores, c)];
                    events@[cat_count(olds.take(i), ores)] matches FluidEvent::OreCatalysis {
                        problem,
                        ore,
                        solution,
                        reactivity,
                    } && problem@ == c.name@ && ore@ == o.name@ && reactivity == reactivity_of(o, c)
                },
                *self == (ConceptFluid { concepts: self.concepts, ..*old(self) }),
            decreases n - k,
        {
            proof {
                assert(olds.take(k + 1 as int).drop_last() =~= olds.take(k as int));
                assert(olds.take(k + 1 as int).last() == olds[k as int]);
                lemma_cat_count_bound(olds.take(k as int), ores);
                assert forall|i: int| 0 <= i <= k as int implies cat_count(olds.take(i), ores)
                    <= cat_count(olds.take(k as int), ores) by {
                    lemma_cat_count_mono(olds, ores, i, k as int);
                }
                assert forall|i: int|
                    0 <= i < k as int && catalyzing(ores, #[trigger] olds[i]) implies cat_count(
                    olds.take(i),
                    ores,
                ) < cat_count(olds.take(k as int), ores) by {
                    assert(olds.take(i + 1).drop_last() =~= olds.take(i));
                    assert(olds.take(i + 1).last() == olds[i]);
                    lemma_cat_count_mono(olds, ores, i + 1, k as int);
                }
                assert forall|i: int| 0 <= i <= k as int implies 0 <= cat_count(
                    olds.take(i),
                    ores,
                ) by {
                    lemma_cat_count_bound(olds.take(i), ores);
                }
            }
            let eligible = self.concepts[k].ballast > 0 && self.concepts[k].layer > 800_000;
            if eligible {
                let hit = find_reactive_ore(&self.ore_deposits, &self.concepts[k]);
                match hit {
                    Some(j) => {
                        proof {
                            lemma_reactive_ore(self.ore_deposits@, self.concepts@[k as int]);
                        }
                        let ore_name_copy = copied(self.ore_deposits[j].name.as_str());
                        let ore_type = self.ore_deposits[j].ore_type;
                        let ore_depth = self.ore_deposits[j].depth;
                        let ore_integration = self.ore_deposits[j].integration_value;
                        let concept_name_copy = copied(self.concepts[k].name.as_str());
                        let problem_name_copy = copied(self.concepts[k].name.as_str());
                        let concept_area = self.concepts[k].area;
                        let reactivity = fadd(
                            fadd(
                                fmul(ore_integration, 300_000),
                                fmul(self.concepts[k].area, 200_000),
                            ),
                            if (match ore_type {
                                OreType::Art => self.concepts[k].area > 600_000,
                                _ => false,
                            }) {
                                400_000
                            } else if (match ore_type {
                                OreType::Code => self.concepts[k].density < 500_000,
                                _ => false,
                            }) {
                                400_000
                            } else if (match ore_type {
                                OreType::Insight => self.concepts[k].integration > 500_000,
                                _ => false,
                            }) {
                                500_000
                            } else if (match ore_type {
                                OreType::Writing => self.concepts[k].area > 500_000,
                                _ => false,
                            }) {
                                300_000
                            } else {
                                100_000
                            },
                        );
                        let mut solution_name = concept_name_copy;
                        solution_name.append("_");
                        solution_name.append(ore_type.as_str());
                        solution_name.append("_solution");
                        let solution_id = fresh_id();
                        let mut solution = Concept::new(
                            solution_id,
                            solution_name,
                            200_000,
                            fadd(concept_area, 200_000),
                        );
                        solution.layer = ore_depth;
                        solution.velocity = -500_000;
                        solution.integration = ore_integration;
                        solution.is_solution = true;
                        let solution_name_copy = copied(solution.name.as_str());
                        events.push(
                            FluidEvent::OreCatalysis {
                                problem: problem_name_copy,
                                ore: ore_name_copy,
                                solution: solution_name_copy,
                                reactivity,
                            },
                        );
                        self.concepts.push(solution);
                        let c = &mut self.concepts[k];
                        c.ballast = 0;
                    },
                    None => {},
                }
            }
            k = k + 1;
        }
        proof {
            assert(olds.take(n as int) =~= olds);
            freeze_wf_pointwise(*old(self), *self);
        }
        events
    }

    /// Evaporation: each concept near the surface whose integration has
    /// crossed the threshold evaporates into a permanent character trait,
    /// staying in the fluid only as a marked husk.
        /// Exactly what the evaporation pass does.
    pub open spec fn evaporation_pass_rel(pre: ConceptFluid, post: ConceptFluid, evs: Seq<FluidEvent>) -> bool {
        &&& (post.wf())
        &&& (post.concepts@.len() == pre.concepts@.len())
        &&& (forall|i: int| 0 <= i < pre.concepts@.len()
                ==> #[trigger] post.concepts@[i] == (if evaporates(
                    pre.concepts@[i],
                    pre.evaporation_zone as int,
                    pre.evaporation_threshold as int,
                ) {
                    Concept { has_evaporated: true, ..pre.concepts@[i] }
                } else {
                    pre.concepts@[i]
                }))
        &&& (post.atmosphere@.len() == pre.atmosphere@.len() + evap_count(
                pre.concepts@,
                pre.evaporation_zone as int,
                pre.evaporation_threshold as int,
            ))
        &&& (forall|i: int| 0 <= i < pre.atmosphere@.len()
                ==> #[trigger] post.atmosphere@[i] == pre.atmosphere@[i])
        &&& (forall|i: int|
                0 <= i < pre.concepts@.len() && evaporates(
                    #[trigger] pre.concepts@[i],
                    pre.evaporation_zone as int,
                    pre.evaporation_threshold as int,
                ) ==> {
                    let t = post.atmosphere@[pre.atmosphere@.len() + evap_count(
                        pre.concepts@.take(i),
                        pre.evaporation_zone as int,
                        pre.evaporation_threshold as int,
                    )];
                    &&& t.name@ == pre.concepts@[i].name@
                    &&& t.integration == pre.concepts@[i].integration
                    &&& t.formed_from == pre.concepts@[i].id
                })
        &&& (evs.len() == evap_count(
                pre.concepts@,
                pre.evaporation_zone as int,
                pre.evaporation_threshold as int,
            ))
        &&& (forall|i: int|
                0 <= i < pre.concepts@.len() && evaporates(
                    #[trigger] pre.concepts@[i],
                    pre.evaporation_zone as int,
                    pre.evaporation_threshold as int,
                ) ==> (evs[evap_count(
                    pre.concepts@.take(i),
                    pre.evaporation_zone as int,
                    pre.evaporation_threshold as int,
                )] matches FluidEvent::ConceptEvaporated { id, name, trait_formed, integration }
                    && id == pre.concepts@[i].id && name@ == pre.concepts@[i].name@
                    && trait_formed@ == pre.concepts@[i].name@ && integration == pre.concepts@[i].integration))
        &&& (post == (ConceptFluid {
                concepts: post.concepts,
                atmosphere: post.atmosphere,
                ..pre
            }))
    }

    /// Evaporation: each concept near the surface whose integration has
    /// crossed the threshold evaporates into a permanent character trait,
    /// staying in the fluid only as a marked husk.
    pub fn pass_evaporation(&mut self) -> (r: Vec<FluidEvent>)
        requires
            old(self).wf(),
        ensures
            final(self).wf(),
            ConceptFluid::evaporation_pass_rel(*old(self), *final(self), r@),
    {
        let mut events: Vec<FluidEvent> = Vec::new();
        let n = self.concepts.len();
        let ghost zone = old(self).evaporation_zone as int;
        let ghost threshold = old(self).evaporation_threshold as int;
        let ghost olds = old(self).concepts@;
        let mut k: usize = 0;
        while k < n
            invariant
                old(self).wf(),
                zone == old(self).evaporation_zone as int,
                threshold == old(self).evaporation_threshold as int,
                olds == old(self).concepts@,
                n == olds.len(),
                n == self.concepts@.len(),
                k <= n,
                forall|i: int| 0 <= i < k ==> #[trigger] self.concepts@[i] == (if evaporates(
                    olds[i],
                    zone,
                    threshold,
                ) {
                    Concept { has_evaporated: true, ..olds[i] }
                } else {
                    olds[i]
                }),
                forall|i: int| k <= i < n ==> #[trigger] self.concepts@[i] == olds[i],
                self.atmosphere@.len() == old(self).atmosphere@.len() + evap_count(
                    olds.take(k as int),
                    zone,
                    threshold,
                ),
                forall|i: int| 0 <= i < old(self).atmosphere@.len()
                    ==> #[trigger] self.atmosphere@[i] == old(self).atmosphere@[i],
                forall|i: int| 0 <= i < k && evaporates(#[trigger] olds[i], zone, threshold) ==> {
                    let t = self.atmosphere@[old(self).atmosphere@.len() + evap_count(
                        olds.take(i),
                        zone,
                        threshold,
                    )];
                    &&& t.name@ == olds[i].name@
                    &&& t.integration == olds[i].integration
                    &&& t.formed_from == olds[i].id
                    &&& t.wf()
                },
                forall|i: int| 0 <= i < self.atmosphere@.len()
                    ==> (#[trigger] self.atmosphere@[i]).wf(),
                events@.len() == evap_count(olds.take(k as int), zone, threshold),
                forall|i: int| 0 <= i < k && evaporates(#[trigger] olds[i], zone, threshold)
                    ==> (events@[evap_count(olds.take(i), zone, threshold)]
                        matches FluidEvent::ConceptEvaporated { id, name, trait_formed, integration }
                        && id == olds[i].id && name@ == olds[i].name@ && trait_formed@
                        == olds[i].name@ && integration == olds[i].integration),
                *self == (ConceptFluid {
                    concepts: self.concepts,
                    atmosphere: self.atmosphere,
                    ..*old(self)
                }),
            decreases n - k,
        {
            proof {
                assert(olds.take(k + 1 as int).drop_last() =~= olds.take(k as int));
                assert(olds.take(k + 1 as int).last() == olds[k as int]);
                lemma_evap_count_bound(olds.take(k as int), zone, threshold);
                assert forall|i: int| 0 <= i <= k as int implies evap_count(
                    olds.take(i),
                    zone,
                    threshold,
                ) <= evap_count(olds.take(k as int), zone, threshold) by {
                    lemma_evap_count_mono(olds, zone, threshold, i, k as int);
                }
                assert forall|i: int|
                    0 <= i < k as int && evaporates(#[trigger] olds[i], zone, threshold)
                    implies evap_count(olds.take(i), zone, threshold) < evap_count(
                    olds.take(k as int),
                    zone,
                    threshold,
                ) by {
                    assert(olds.take(i + 1).drop_last() =~= olds.take(i));
                    assert(olds.take(i + 1).last() == olds[i]);
                    lemma_evap_count_mono(olds, zone, threshold, i + 1, k as int);
                }
                assert forall|i: int| 0 <= i <= k as int implies 0 <= evap_count(
                    olds.take(i),
                    zone,
                    threshold,
                ) by {
                    lemma_evap_count_bound(olds.take(i), zone, threshold);
                }
            }
            let hits = self.concepts[k].layer < self.evaporation_zone
                && self.concepts[k].integration >= self.evaporation_threshold
                && !self.concepts[k].has_evaporated;
            if hits {
                let id = self.concepts[k].id;
                let integration = self.concepts[k].integration;
                let trait_name = copied(self.concepts[k].name.as_str());
                let event_name = copied(self.concepts[k].name.as_str());
                let formed_name = copied(self.concepts[k].name.as_str());
                let trait_obj = CharacterTrait::new(trait_name, integration, id);
                self.atmosphere.push(trait_obj);
                events.push(
                    FluidEvent::ConceptEvaporated {
                        id,
                        name: event_name,
                        trait_formed: formed_name,
                        integration,
                    },
                );
                let c = &mut self.concepts[k];
                c.has_evaporated = true;
            }
            k = k + 1;
        }
        proof {
            assert(olds.take(n as int) =~= olds);
            freeze_wf_pointwise(*old(self), *self);
        }
        events
    }

    /// The buoyancy force on a concept: the pull toward its target layer
    /// scaled by its density, less the salinity boost light concepts get.
    pub open spec fn spec_buoyancy_force(self, c: Concept) -> int {
        let heavy = fx_add(c.density as int, c.ballast as int);
        let effective_density = if heavy <= SCALE { heavy } else { SCALE as int };
        let target_layer = clamped(
            fx_add(fx_sub(SCALE as int, c.buoyancy as int), c.ballast as int),
            0,
            SCALE as int,
        );
        let diff = fx_sub(target_layer, c.layer as int);
        let salinity_boost = if effective_density < 500_000 {
            fx_mul(
                self.salinity as int,
                fx_mul(fx_sub(500_000, effective_density), 2_000_000),
            )
        } else {
            0
        };
        fx_sub(fx_mul(diff, c.density as int), salinity_boost)
    }

    /// The quadratic drag on a concept under the shear-thinned viscosity,
    /// opposing its motion; nothing below the dead band.
    pub open spec fn spec_drag_force(self, c: Concept) -> int {
        if mag(c.velocity as int) > 1_000 {
            let visc = self.spec_effective_viscosity(c.velocity as int);
            let m = fx_mul(
                fx_mul(
                    fx_mul(fx_mul(500_000, visc), fx_mul(c.velocity as int, c.velocity as int)),
                    self.drag_coefficient as int,
                ),
                c.area as int,
            );
            if c.velocity > 0 { -m } else { m }
        } else {
            0
        }
    }

    /// The surface tension pushing a rising concept back down inside the
    /// activation zone, scaled by its proximity to the surface.
    pub open spec fn spec_surface_force(self, c: Concept) -> int {
        if c.layer < self.activation_zone && c.velocity < 0 {
            fx_mul(
                self.surface_tension as int,
                fx_sub(SCALE as int, fx_div(c.layer as int, self.activation_zone as int)),
            )
        } else {
            0
        }
    }

    /// The net force on a concept: buoyancy, drag, surface tension, the
    /// thermal uplift of every vent in range, and every standing wave's
    /// pull, summed in that order.
    pub open spec fn spec_net_force(self, c: Concept) -> int {
        fx_add(
            fx_add(
                fx_add(
                    fx_add(self.spec_buoyancy_force(c), self.spec_drag_force(c)),
                    self.spec_surface_force(c),
                ),
                thermal_force_sum(self.core_truths@, c.layer as int),
            ),
            wave_force_sum(self.standing_waves@, c.layer as int),
        )
    }

    /// A concept's velocity after one Euler step: the net force (with the
    /// deterministic turbulent perturbation and eddy friction while the
    /// fluid is turbulent) integrated over the timestep.
    pub open spec fn spec_velocity_after_forces(self, c: Concept, dt: int) -> int {
        let net = self.spec_net_force(c);
        if self.is_turbulent {
            let seed = c.layer * 1_000 + c.velocity * 500;
            let acceleration = fx_add(
                net,
                fx_mul(fx_mul(osc(seed), self.turbulence_energy as int), 3_000_000),
            );
            fx_add(fx_mul(c.velocity as int, 950_000), fx_mul(acceleration, dt))
        } else {
            fx_add(c.velocity as int, fx_mul(net, dt))
        }
    }

    /// Exactly what settling a concept's motion returns: velocity, layer,
    /// breakthrough flag, eddy scale, integration, and the system-wide
    /// integration gain, after breakthrough or bounce, boundary damping,
    /// the first containing continent's reflection, the eddy cascade and
    /// active damping.
    pub open spec fn spec_settle(
        self,
        new_layer_raw: int,
        velocity_in: int,
        has_broken0: bool,
        eddy0: int,
        integration0: int,
        dt: int,
    ) -> (int, int, bool, int, int, int) {
        let broke = new_layer_raw <= 0 && velocity_in < 0 && !has_broken0;
        let kinetic_energy = fx_mul(500_000, fx_mul(velocity_in, velocity_in));
        let (has_broken, v1): (bool, int) = if broke {
            if kinetic_energy > self.surface_tension {
                let shed = fx_sub(kinetic_energy, self.surface_tension as int);
                let new_ke = if shed >= 0 { shed } else { 0 };
                (true, -sqrt_tz(fx_mul(2_000_000, new_ke) * SCALE))
            } else {
                (has_broken0, -fx_mul(velocity_in, 300_000))
            }
        } else {
            (has_broken0, velocity_in)
        };
        let layer1 = clamped(new_layer_raw, 0, SCALE as int);
        let v2 = if layer1 <= 0 || layer1 >= SCALE { fx_mul(v1, 500_000) } else { v1 };
        let ci = first_containing(self.continents@, layer1);
        let (layer2, v3): (int, int) = if ci >= 0 {
            let cont = self.continents@[ci];
            let restitution = fx_sub(SCALE as int, cont.impermeability as int);
            if v2 > 0 {
                (
                    clamped(fx_sub(cont.depth_range.0 as int, 10_000), 0, SCALE as int),
                    fx_mul(-fx_mul(mag(v2), restitution), 300_000),
                )
            } else {
                (
                    clamped(fx_add(cont.depth_range.1 as int, 10_000), 0, SCALE as int),
                    fx_mul(fx_mul(mag(v2), restitution), 300_000),
                )
            }
        } else {
            (layer1, v2)
        };
        let t = self.spec_cascade(v3, eddy0, integration0, dt);
        (t.0, layer2, has_broken, t.1, t.2, t.3)
    }

    /// Exactly what the energy cascade and active damping do: velocity,
    /// eddy scale, integration, and the system-wide integration gain.
    pub open spec fn spec_cascade(self, v: int, eddy0: int, integration0: int, dt: int) -> (
        int,
        int,
        int,
        int,
    ) {
        let kinetic_energy2 = fx_mul(500_000, fx_mul(v, v));
        let eddy1 = if kinetic_energy2 > 100_000 && kinetic_energy2 > eddy0 {
            kinetic_energy2
        } else {
            eddy0
        };
        let (eddy2, integration1, gain1): (int, int, int) = if eddy1 > 10_000 {
            let step = fx_mul(fx_mul(self.viscosity as int, 2_000_000), dt);
            let dissipated = fx_mul(eddy1, step);
            let integ = fx_add(integration0, dissipated);
            let gained = fx_add(0, dissipated);
            let kept = fx_sub(SCALE as int, step);
            let keep = if kept >= 0 { kept } else { 0 };
            let shrunk = fx_mul(eddy1, keep);
            if shrunk < 10_000 {
                (0, fx_add(integ, shrunk), fx_add(gained, shrunk))
            } else {
                (shrunk, integ, gained)
            }
        } else {
            (eddy1, integration0, 0)
        };
        let (v4, integration2, gain2): (int, int, int) = if self.damping_factor > 10_000 {
            let damp_step = fx_mul(self.damping_factor as int, dt);
            let loss = fx_mul(mag(v), damp_step);
            let kept2 = fx_sub(SCALE as int, damp_step);
            let keep2 = if kept2 >= 0 { kept2 } else { 0 };
            (fx_mul(v, keep2), fx_add(integration1, loss), fx_add(gain1, loss))
        } else {
            (v, integration1, gain1)
        };
        (v4, eddy2, integration2, gain2)
    }

    /// Exactly what the force pass does to concept `i`: the suppressed
    /// step while a freeze it does not hold is active, otherwise the full
    /// force model, Euler step and settlement, with the vent-encounter
    /// counter advanced.
    #[verifier::opaque]
    pub open spec fn spec_concept_step(self, i: int, dt: int) -> Concept {
        let c = self.concepts@[i];
        if self.is_frozen && !c.is_frozen {
            spec_suppressed_step(c, dt)
        } else {
            let v1 = self.spec_velocity_after_forces(c, dt);
            let raw = fx_add(c.layer as int, fx_mul(v1, dt));
            let s = self.spec_settle(
                raw,
                v1,
                c.has_broken_surface,
                c.eddy_scale as int,
                c.integration as int,
                dt,
            );
            Concept {
                velocity: s.0 as i64,
                layer: s.1 as i64,
                has_broken_surface: s.2,
                eddy_scale: s.3 as i64,
                integration: s.4 as i64,
                vent_encounters: encounters_after(
                    self.core_truths@,
                    c.layer as int,
                    c.density as int,
                    c.vent_encounters,
                ) as u32,
                ..c
            }
        }
    }

    /// The system-wide integration concept `i` contributes this tick.
    #[verifier::opaque]
    pub open spec fn spec_step_gain(self, i: int, dt: int) -> int {
        let c = self.concepts@[i];
        if self.is_frozen && !c.is_frozen {
            0
        } else {
            let v1 = self.spec_velocity_after_forces(c, dt);
            let raw = fx_add(c.layer as int, fx_mul(v1, dt));
            self.spec_settle(
                raw,
                v1,
                c.has_broken_surface,
                c.eddy_scale as int,
                c.integration as int,
                dt,
            ).5
        }
    }

    /// The total integration after the first `upto` concepts of the force
    /// pass have contributed their gains.
    #[verifier::opaque]
    pub open spec fn gains_sum(self, dt: int, upto: int) -> int
        decreases upto,
    {
        if upto <= 0 {
            self.total_integration as int
        } else {
            fx_add(self.gains_sum(dt, upto - 1), self.spec_step_gain(upto - 1, dt))
        }
    }

    /// Finish one concept's motion for the tick: surface breakthrough or
    /// bounce, boundary damping, continent collision, the eddy energy
    /// cascade and active damping.  Returns the new velocity, layer,
    /// breakthrough flag, eddy scale and integration, and how much
    /// integration the system as a whole gained.
    #[verifier::rlimit(100)]
    fn settle_concept(
        &self,
        concept_id: u128,
        name: &str,
        new_layer_raw: i64,
        velocity_in: i64,
        has_broken0: bool,
        eddy0: i64,
        integration0: i64,
        dt: i64,
        events: &mut Vec<FluidEvent>,
    ) -> (r: (i64, i64, bool, i64, i64, i64))
        requires
            self.wf(),
            fx_ok(new_layer_raw),
            fx_ok(velocity_in),
            0 <= eddy0 <= MAG,
            0 <= integration0 <= MAG,
            0 < dt <= SCALE,
        ensures
            ({
                let s = self.spec_settle(
                    new_layer_raw as int,
                    velocity_in as int,
                    has_broken0,
                    eddy0 as int,
                    integration0 as int,
                    dt as int,
                );
                &&& r.0 == s.0
                &&& r.1 == s.1
                &&& r.2 == s.2
                &&& r.3 == s.3
                &&& r.4 == s.4
                &&& r.5 == s.5
            }),
            fx_ok(r.0),
            0 <= r.1 <= SCALE,
            has_broken0 ==> r.2,
            0 <= r.3 <= MAG,
            integration0 <= r.4 <= MAG,
            0 <= r.5 <= MAG,
    {
        let mut velocity = velocity_in;
        let mut has_broken = has_broken0;
        if new_layer_raw <= 0 && velocity < 0 && !has_broken {
            let kinetic_energy = fmul(500_000, fmul(velocity, velocity));
            proof {
                crate::standing_wave::lemma_fx_sq_nonneg(velocity as int);
                crate::fixed::lemma_fx_mul_nonneg(
                    500_000,
                    fx_mul(velocity as int, velocity as int),
                );
            }
            if kinetic_energy > self.surface_tension {
                has_broken = true;
                events.push(
                    FluidEvent::SurfaceBreakthrough {
                        id: concept_id,
                        name: copied(name),
                        kinetic_energy,
                    },
                );
                let new_ke = fmax(fsub(kinetic_energy, self.surface_tension), 0);
                velocity = fneg(fsqrt(fmul(2_000_000, new_ke)));
            } else {
                events.push(
                    FluidEvent::SurfaceBounce {
                        id: concept_id,
                        name: copied(name),
                        kinetic_energy,
                        required: self.surface_tension,
                    },
                );
                velocity = fneg(fmul(velocity, 300_000));
            }
        }
        let mut layer = fclamp01(new_layer_raw);
        if layer <= 0 || layer >= SCALE {
            velocity = fmul(velocity, 500_000);
        }
        let ghost layer_pre = layer as int;
        let ghost v_pre = velocity as int;
        let mut hit_continent = false;
        let ghost mut hit_idx: int = -1;
        let mut cc: usize = 0;
        while cc < self.continents.len()
            invariant
                self.wf(),
                cc <= self.continents@.len(),
                0 <= layer <= SCALE,
                0 <= layer_pre <= SCALE,
                -MAG <= v_pre <= MAG,
                fx_ok(velocity),
                !hit_continent ==> {
                    &&& velocity == v_pre
                    &&& layer == layer_pre
                    &&& forall|j: int| 0 <= j < cc
                        ==> !((#[trigger] self.continents@[j]).depth_range.0 <= layer_pre
                            <= self.continents@[j].depth_range.1)
                },
                hit_continent ==> {
                    let cont = self.continents@[hit_idx];
                    let restitution = fx_sub(SCALE as int, cont.impermeability as int);
                    &&& 0 <= hit_idx < cc
                    &&& cont.depth_range.0 <= layer_pre <= cont.depth_range.1
                    &&& (forall|j: int| 0 <= j < hit_idx
                        ==> !((#[trigger] self.continents@[j]).depth_range.0 <= layer_pre
                            <= self.continents@[j].depth_range.1))
                    &&& (v_pre > 0 ==> layer == clamped(
                        fx_sub(cont.depth_range.0 as int, 10_000),
                        0,
                        SCALE as int,
                    ) && velocity == fx_mul(-fx_mul(mag(v_pre), restitution), 300_000))
                    &&& (v_pre <= 0 ==> layer == clamped(
                        fx_add(cont.depth_range.1 as int, 10_000),
                        0,
                        SCALE as int,
                    ) && velocity == fx_mul(fx_mul(mag(v_pre), restitution), 300_000))
                },
            decreases self.continents@.len() - cc,
        {
            if !hit_continent {
                let lo = self.continents[cc].depth_range.0;
                let hi = self.continents[cc].depth_range.1;
                if layer >= lo && layer <= hi {
                    let impermeability = self.continents[cc].impermeability;
                    let restitution = fsub(SCALE, impermeability);
                    if velocity > 0 {
                        layer = fclamp01(fsub(lo, 10_000));
                        velocity = fneg(fmul(fabs(velocity), restitution));
                    } else {
                        layer = fclamp01(fadd(hi, 10_000));
                        velocity = fmul(fabs(velocity), restitution);
                    }
                    velocity = fmul(velocity, 300_000);
                    hit_continent = true;
                    proof {
                        hit_idx = cc as int;
                    }
                }
            }
            cc = cc + 1;
        }
        proof {
            lemma_first_containing(self.continents@, layer_pre);
            let fc = first_containing(self.continents@, layer_pre);
            if hit_continent {
                if fc < 0 {
                    assert(!(self.continents@[hit_idx].depth_range.0 <= layer_pre
                        <= self.continents@[hit_idx].depth_range.1));
                } else if fc < hit_idx {
                    assert(!(self.continents@[fc].depth_range.0 <= layer_pre
                        <= self.continents@[fc].depth_range.1));
                } else if fc > hit_idx {
                    assert(!(self.continents@[hit_idx].depth_range.0 <= layer_pre
                        <= self.continents@[hit_idx].depth_range.1));
                }
                assert(fc == hit_idx);
            } else {
                if fc >= 0 {
                    assert(!(self.continents@[fc].depth_range.0 <= layer_pre
                        <= self.continents@[fc].depth_range.1));
                }
                assert(fc < 0);
            }
        }
        let settled = self.cascade_energy(velocity, eddy0, integration0, dt);
        (settled.0, layer, has_broken, settled.1, settled.2, settled.3)
    }

    /// The energy cascade and active damping for one concept: kinetic
    /// energy feeds the eddy accumulator, eddies decay into integration,
    /// and any active damping converts speed into integration too.
    #[verifier::rlimit(100)]
    fn cascade_energy(&self, velocity_in: i64, eddy0: i64, integration0: i64, dt: i64) -> (r: (
        i64,
        i64,
        i64,
        i64,
    ))
        requires
            self.wf(),
            fx_ok(velocity_in),
            0 <= eddy0 <= MAG,
            0 <= integration0 <= MAG,
            0 < dt <= SCALE,
        ensures
            ({
                let t = self.spec_cascade(velocity_in as int, eddy0 as int, integration0 as int, dt as int);
                &&& r.0 == t.0
                &&& r.1 == t.1
                &&& r.2 == t.2
                &&& r.3 == t.3
            }),
            fx_ok(r.0),
            0 <= r.1 <= MAG,
            integration0 <= r.2 <= MAG,
            0 <= r.3 <= MAG,
    {
        let mut velocity = velocity_in;
        let mut eddy = eddy0;
        let mut integration = integration0;
        let mut added_total: i64 = 0;
        let kinetic_energy2 = fmul(500_000, fmul(velocity, velocity));
        proof {
            crate::standing_wave::lemma_fx_sq_nonneg(velocity as int);
            crate::fixed::lemma_fx_mul_nonneg(
                500_000,
                fx_mul(velocity as int, velocity as int),
            );
        }
        if kinetic_energy2 > 100_000 {
            eddy = fmax(eddy, kinetic_energy2);
        }
        if eddy > 10_000 {
            let breakdown_rate = fmul(self.viscosity, 2_000_000);
            let step = fmul(breakdown_rate, dt);
            let dissipated = fmul(eddy, step);
            proof {
                crate::fixed::lemma_fx_mul_nonneg(self.viscosity as int, 2_000_000);
                crate::fixed::lemma_fx_mul_nonneg(breakdown_rate as int, dt as int);
                crate::fixed::lemma_fx_mul_nonneg(eddy as int, step as int);
                crate::fixed::lemma_fx_add_mono(integration as int, dissipated as int);
                crate::fixed::lemma_fx_add_mono(added_total as int, dissipated as int);
            }
            integration = fadd(integration, dissipated);
            added_total = fadd(added_total, dissipated);
            let keep = fmax(fsub(SCALE, step), 0);
            let shrunk = fmul(eddy, keep);
            proof {
                crate::fixed::lemma_fx_mul_nonneg(eddy as int, keep as int);
            }
            eddy = shrunk;
            if eddy < 10_000 {
                proof {
                    crate::fixed::lemma_fx_add_mono(integration as int, eddy as int);
                    crate::fixed::lemma_fx_add_mono(added_total as int, eddy as int);
                }
                integration = fadd(integration, eddy);
                added_total = fadd(added_total, eddy);
                eddy = 0;
            }
        }
        if self.damping_factor > 10_000 {
            let damp_step = fmul(self.damping_factor, dt);
            let speed = fabs(velocity);
            let damping_loss = fmul(speed, damp_step);
            proof {
                crate::fixed::lemma_fx_mul_nonneg(self.damping_factor as int, dt as int);
                crate::fixed::lemma_fx_mul_nonneg(speed as int, damp_step as int);
                crate::fixed::lemma_fx_add_mono(integration as int, damping_loss as int);
                crate::fixed::lemma_fx_add_mono(added_total as int, damping_loss as int);
            }
            velocity = fmul(velocity, fmax(fsub(SCALE, damp_step), 0));
            integration = fadd(integration, damping_loss);
            added_total = fadd(added_total, damping_loss);
        }
        (velocity, eddy, integration, added_total)
    }

    /// Compute one non-suppressed concept's force balance and Euler step:
    /// the velocity after all forces, the unclamped next layer, and the
    /// advanced vent-encounter counter.  Qualifying vent encounters are
    /// collected for later strengthening, and heavy concepts mineralize
    /// ore on every third encounter.
    #[verifier::rlimit(100)]
    fn integrate_forces(
        &self,
        c: &Concept,
        dt: i64,
        strengthened: &mut Vec<(usize, i64)>,
        new_ores: &mut Vec<PreciousOre>,
        events: &mut Vec<FluidEvent>,
    ) -> (r: (i64, i64, u32))
        requires
            self.wf(),
            c.wf(),
            0 < dt <= SCALE,
            forall|i: int| 0 <= i < old(strengthened)@.len() ==> {
                &&& (#[trigger] old(strengthened)@[i]).0 < self.core_truths@.len()
                &&& 0 <= old(strengthened)@[i].1 <= MAG
            },
            forall|i: int| 0 <= i < old(new_ores)@.len() ==> {
                &&& (#[trigger] old(new_ores)@[i]).wf()
                &&& old(new_ores)@[i].density == 900_000
                &&& old(new_ores)@[i].vent_cycles % 3 == 0
            },
        ensures
            r.0 == self.spec_velocity_after_forces(*c, dt as int),
            r.1 == fx_add(c.layer as int, fx_mul(r.0 as int, dt as int)),
            r.2 == encounters_after(
                self.core_truths@,
                c.layer as int,
                c.density as int,
                c.vent_encounters,
            ),
            fx_ok(r.0),
            fx_ok(r.1),
            final(strengthened)@.len() >= old(strengthened)@.len(),
            forall|i: int| 0 <= i < old(strengthened)@.len()
                ==> #[trigger] final(strengthened)@[i] == old(strengthened)@[i],
            forall|i: int| 0 <= i < final(strengthened)@.len() ==> {
                &&& (#[trigger] final(strengthened)@[i]).0 < self.core_truths@.len()
                &&& 0 <= final(strengthened)@[i].1 <= MAG
            },
            final(new_ores)@.len() >= old(new_ores)@.len(),
            forall|i: int| 0 <= i < old(new_ores)@.len()
                ==> #[trigger] final(new_ores)@[i] == old(new_ores)@[i],
            forall|i: int| 0 <= i < final(new_ores)@.len() ==> {
                &&& (#[trigger] final(new_ores)@[i]).wf()
                &&& final(new_ores)@[i].density == 900_000
                &&& final(new_ores)@[i].vent_cycles % 3 == 0
            },
            final(events)@.len() >= old(events)@.len(),
            forall|i: int| 0 <= i < old(events)@.len()
                ==> #[trigger] final(events)@[i] == old(events)@[i],
    {
        let density = c.density;
        let buoyancy = c.buoyancy;
        let ballast = c.ballast;
        let area = c.area;
        let layer0 = c.layer;
        let velocity0 = c.velocity;
        let integration0 = c.integration;
        let concept_id = c.id;
        let effective_density = fmin(fadd(density, ballast), SCALE);
        let target_layer = fclamp01(fadd(fsub(SCALE, buoyancy), ballast));
        let diff = fsub(target_layer, layer0);
        let salinity_boost = if effective_density < 500_000 {
            fmul(self.salinity, fmul(fsub(500_000, effective_density), 2_000_000))
        } else {
            0
        };
        let buoyancy_force = fsub(fmul(diff, density), salinity_boost);
        let effective_visc = self.effective_viscosity(velocity0);
        let drag_force = if fabs(velocity0) > 1_000 {
            let m = fmul(
                fmul(fmul(fmul(500_000, effective_visc), fmul(velocity0, velocity0)),
                    self.drag_coefficient),
                area,
            );
            if velocity0 > 0 {
                fneg(m)
            } else {
                m
            }
        } else {
            0
        };
        let surface_force = if layer0 < self.activation_zone && velocity0 < 0 {
            let depth_factor = fsub(SCALE, fdiv(layer0, self.activation_zone));
            fmul(self.surface_tension, depth_factor)
        } else {
            0
        };
        let mut wave_force: i64 = 0;
        let mut w: usize = 0;
        while w < self.standing_waves.len()
            invariant
                self.wf(),
                0 <= layer0 <= SCALE,
                w <= self.standing_waves@.len(),
                wave_force == wave_force_sum(self.standing_waves@.take(w as int), layer0 as int),
                fx_ok(wave_force),
            decreases self.standing_waves@.len() - w,
        {
            proof {
                assert(self.standing_waves@.take(w + 1 as int).drop_last()
                    =~= self.standing_waves@.take(w as int));
                assert(self.standing_waves@.take(w + 1 as int).last()
                    == self.standing_waves@[w as int]);
            }
            let f = self.standing_waves[w].force_at_depth(layer0);
            wave_force = fadd(wave_force, f);
            w = w + 1;
        }
        proof {
            assert(self.standing_waves@.take(self.standing_waves@.len() as int)
                =~= self.standing_waves@);
        }
        let mut thermal_force: i64 = 0;
        let mut encounters = c.vent_encounters;
        let ghost enc0 = c.vent_encounters;
        let mut t: usize = 0;
        while t < self.core_truths.len()
            invariant
                self.wf(),
                c.wf(),
                layer0 == c.layer,
                density == c.density,
                area == c.area,
                integration0 == c.integration,
                concept_id == c.id,
                enc0 == c.vent_encounters,
                t <= self.core_truths@.len(),
                thermal_force == thermal_force_sum(
                    self.core_truths@.take(t as int),
                    layer0 as int,
                ),
                encounters as int == encounters_after(
                    self.core_truths@.take(t as int),
                    layer0 as int,
                    density as int,
                    enc0,
                ),
                fx_ok(thermal_force),
                forall|i: int| 0 <= i < strengthened@.len() ==> {
                    &&& (#[trigger] strengthened@[i]).0 < self.core_truths@.len()
                    &&& 0 <= strengthened@[i].1 <= MAG
                },
                strengthened@.len() >= old(strengthened)@.len(),
                forall|i: int| 0 <= i < old(strengthened)@.len()
                    ==> #[trigger] strengthened@[i] == old(strengthened)@[i],
                forall|i: int| 0 <= i < new_ores@.len() ==> {
                    &&& (#[trigger] new_ores@[i]).wf()
                    &&& new_ores@[i].density == 900_000
                    &&& new_ores@[i].vent_cycles % 3 == 0
                },
                new_ores@.len() >= old(new_ores)@.len(),
                forall|i: int| 0 <= i < old(new_ores)@.len()
                    ==> #[trigger] new_ores@[i] == old(new_ores)@[i],
                events@.len() >= old(events)@.len(),
                forall|i: int| 0 <= i < old(events)@.len()
                    ==> #[trigger] events@[i] == old(events)@[i],
            decreases self.core_truths@.len() - t,
        {
            proof {
                assert(self.core_truths@.take(t + 1 as int).drop_last()
                    =~= self.core_truths@.take(t as int));
                assert(self.core_truths@.take(t + 1 as int).last()
                    == self.core_truths@[t as int]);
            }
            let vent_depth = self.core_truths[t].depth;
            let vent_radius = self.core_truths[t].radius;
            let vent_heat = self.core_truths[t].heat_output;
            let depth_diff = fabs(fsub(layer0, vent_depth));
            if depth_diff < vent_radius {
                let proximity = fsub(SCALE, fdiv(depth_diff, vent_radius));
                let heat_transfer = fmul(vent_heat, fmul(proximity, proximity));
                thermal_force = fsub(thermal_force, heat_transfer);
                if heat_transfer > 10_000 {
                    let strengthening = fmul(density, 10_000);
                    proof {
                        crate::fixed::lemma_fx_mul_nonneg(density as int, 10_000);
                    }
                    strengthened.push((t, strengthening));
                    if density > 700_000 {
                        if encounters < u32::MAX {
                            encounters = encounters + 1;
                        }
                        if encounters % 3 == 0 {
                            let ore_type = if encounters >= 9 {
                                OreType::Insight
                            } else if integration0 > 1_000_000 {
                                OreType::Writing
                            } else if area > 800_000 {
                                OreType::Art
                            } else {
                                OreType::Code
                            };
                            let ore_name = joined_counted(
                                c.name.as_str(),
                                "_ore_",
                                (encounters / 3) as u64,
                            );
                            let event_ore_name = copied(ore_name.as_str());
                            let event_concept_name = copied(c.name.as_str());
                            let extra_raw = (encounters as i64) * 500_000;
                            let extra = fmin(extra_raw, MAG);
                            let integration_value = fadd(integration0, extra);
                            let ore = PreciousOre {
                                name: ore_name,
                                ore_type,
                                density: 900_000,
                                depth: vent_depth,
                                formed_from: concept_id,
                                vent_cycles: encounters,
                                integration_value,
                            };
                            events.push(
                                FluidEvent::Mineralization {
                                    concept_name: event_concept_name,
                                    ore_name: event_ore_name,
                                    ore_type: copied(ore_type.as_str()),
                                    depth: vent_depth,
                                    vent_cycles: encounters,
                                    integration_value,
                                },
                            );
                            new_ores.push(ore);
                        }
                    }
                }
            }
            t = t + 1;
        }
        proof {
            assert(self.core_truths@.take(self.core_truths@.len() as int)
                =~= self.core_truths@);
        }
        let net_force = fadd(
            fadd(fadd(fadd(buoyancy_force, drag_force), surface_force), thermal_force),
            wave_force,
        );
        let mut acceleration = net_force;
        let mut velocity = velocity0;
        if self.is_turbulent {
            let seed = layer0 * 1_000 + velocity0 * 500;
            let chaos = osc_at(seed);
            let turbulent_force = fmul(fmul(chaos, self.turbulence_energy), 3_000_000);
            acceleration = fadd(acceleration, turbulent_force);
            velocity = fmul(velocity, 950_000);
        }
        velocity = fadd(velocity, fmul(acceleration, dt));
        let new_layer_raw = fadd(layer0, fmul(velocity, dt));
        (velocity, new_layer_raw, encounters)
    }

    /// Force integration: each concept feels buoyancy toward its target
    /// layer, quadratic drag under the shear-thinned viscosity, surface
    /// tension near the top, thermal uplift near vents, and any standing
    /// wave's pull; velocity and position advance by explicit Euler with
    /// surface-breakthrough, boundary and continent handling, and kinetic
    /// energy cascades through eddies into integration.  While a freeze
    /// is active every other concept is pushed down instead.  Qualifying
    /// vent encounters strengthen the vent and mineralize heavy concepts
    /// into ore.
    #[verifier::rlimit(100)]
        /// Exactly what the force-integration pass does to the store (its
    /// event list carries breakthroughs, bounces, mineralizations and
    /// deposits and is not otherwise constrained).
    #[verifier::opaque]
    pub open spec fn forces_pass_rel(
        pre: ConceptFluid,
        post: ConceptFluid,
        evs: Seq<FluidEvent>,
        dt: i64,
    ) -> bool {
        &&& (post.wf())
        &&& (post.concepts@.len() == pre.concepts@.len())
        &&& (forall|i: int| 0 <= i < pre.concepts@.len() ==> {
                let c0 = pre.concepts@[i];
                let c1 = #[trigger] post.concepts@[i];
                &&& c1.id == c0.id
                &&& c1.name == c0.name
                &&& c1.density == c0.density
                &&& c1.buoyancy == c0.buoyancy
                &&& c1.area == c0.area
                &&& c1.ballast == c0.ballast
                &&& c1.is_solution == c0.is_solution
                &&& c1.has_evaporated == c0.has_evaporated
                &&& c1.is_frozen == c0.is_frozen
                &&& c1.time_at_surface == c0.time_at_surface
                &&& c1.integration >= c0.integration
                &&& (c0.has_broken_surface ==> c1.has_broken_surface)
                &&& 0 <= c1.layer <= SCALE
            })
        &&& (post.total_integration >= pre.total_integration)
        &&& (post.core_truths@.len() == pre.core_truths@.len())
        &&& (forall|i: int| 0 <= i < pre.core_truths@.len() ==> {
                let t0 = pre.core_truths@[i];
                let t1 = #[trigger] post.core_truths@[i];
                &&& t1.name == t0.name
                &&& t1.depth == t0.depth
                &&& t1.radius == t0.radius
                &&& t1.heat_output >= t0.heat_output
            })
        &&& (post.ore_deposits@.len() >= pre.ore_deposits@.len())
        &&& (forall|i: int| 0 <= i < pre.ore_deposits@.len()
                ==> #[trigger] post.ore_deposits@[i] == pre.ore_deposits@[i])
        &&& (post.ocean_floor_pressure >= pre.ocean_floor_pressure)
        &&& (forall|i: int| 0 <= i < pre.concepts@.len()
                ==> #[trigger] post.concepts@[i] == pre.spec_concept_step(
                    i,
                    dt as int,
                ))
        &&& (post.total_integration == pre.gains_sum(
                dt as int,
                pre.concepts@.len() as int,
            ))
        &&& (forall|i: int|
                pre.ore_deposits@.len() <= i < post.ore_deposits@.len() ==> {
                    &&& (#[trigger] post.ore_deposits@[i]).wf()
                    &&& post.ore_deposits@[i].density == 900_000
                    &&& post.ore_deposits@[i].vent_cycles % 3 == 0
                })
        &&& (post.ocean_floor_pressure == deposit_pressure(
                pre.ocean_floor_pressure as int,
                post.ore_deposits@.skip(pre.ore_deposits@.len() as int),
            ))
        &&& (post == (ConceptFluid {
                concepts: post.concepts,
                core_truths: post.core_truths,
                ore_deposits: post.ore_deposits,
                ocean_floor_pressure: post.ocean_floor_pressure,
                total_integration: post.total_integration,
                ..pre
            }))
    }

    /// Exactly what the damping decay and salinity rise between the
    /// passes do.
    pub open spec fn decay_salinity_rel(pre: ConceptFluid, post: ConceptFluid, dt: i64) -> bool {
        let damping1 = if pre.damping_factor > 10_000 {
            fx_mul(pre.damping_factor as int, 950_000)
        } else {
            0int
        };
        let gain = fx_mul(
            pre.total_integration as int,
            fx_mul(pre.salinity_rate as int, dt as int),
        );
        &&& post.wf()
        &&& post == (ConceptFluid {
            damping_factor: damping1 as i64,
            salinity: fx_add(pre.salinity as int, gain) as i64,
            ..pre
        })
    }

    /// Force integration: each concept feels buoyancy toward its target
    /// layer, quadratic drag under the shear-thinned viscosity, surface
    /// tension near the top, thermal uplift near vents, and any standing
    /// wave's pull; velocity and position advance by explicit Euler with
    /// surface-breakthrough, boundary and continent handling, and kinetic
    /// energy cascades through eddies into integration.  While a freeze
    /// is active every other concept is pushed down instead.  Qualifying
    /// vent encounters strengthen the vent and mineralize heavy concepts
    /// into ore.
    #[verifier::rlimit(100)]
    #[verifier::spinoff_prover]
    pub fn pass_forces(&mut self, dt: i64) -> (r: Vec<FluidEvent>)
        requires
            old(self).wf(),
            0 < dt <= SCALE,
        ensures
            final(self).wf(),
            ConceptFluid::forces_pass_rel(*old(self), *final(self), r@, dt),
    {
        let mut events: Vec<FluidEvent> = Vec::new();
        let mut strengthened: Vec<(usize, i64)> = Vec::new();
        let mut new_ores: Vec<PreciousOre> = Vec::new();
        proof {
            lemma_gains_step(*old(self), dt, 0);
        }
        let n = self.concepts.len();
        let mut k: usize = 0;
        while k < n
            invariant
                old(self).wf(),
                0 < dt <= SCALE,
                n == self.concepts@.len(),
                n == old(self).concepts@.len(),
                k <= n,
                forall|i: int| 0 <= i < k ==> {
                    let c0 = old(self).concepts@[i];
                    let c1 = #[trigger] self.concepts@[i];
                    &&& c1.id == c0.id
                    &&& c1.name == c0.name
                    &&& c1.density == c0.density
                    &&& c1.buoyancy == c0.buoyancy
                    &&& c1.area == c0.area
                    &&& c1.ballast == c0.ballast
                    &&& c1.is_solution == c0.is_solution
                    &&& c1.has_evaporated == c0.has_evaporated
                    &&& c1.is_frozen == c0.is_frozen
                    &&& c1.time_at_surface == c0.time_at_surface
                    &&& c1.integration >= c0.integration
                    &&& (c0.has_broken_surface ==> c1.has_broken_surface)
                    &&& c1.wf()
                },
                forall|i: int| k <= i < n ==> #[trigger] self.concepts@[i] == old(
                    self,
                ).concepts@[i],
                forall|i: int| 0 <= i < k ==> #[trigger] self.concepts@[i] == old(
                    self,
                ).spec_concept_step(i, dt as int),
                self.total_integration == old(self).gains_sum(dt as int, k as int),
                self.wf(),
                forall|i: int| 0 <= i < strengthened@.len() ==> {
                    &&& (#[trigger] strengthened@[i]).0 < old(self).core_truths@.len()
                    &&& 0 <= strengthened@[i].1 <= MAG
                },
                forall|i: int| 0 <= i < new_ores@.len() ==> {
                    &&& (#[trigger] new_ores@[i]).wf()
                    &&& new_ores@[i].density == 900_000
                    &&& new_ores@[i].vent_cycles % 3 == 0
                },
                old(self).total_integration <= self.total_integration <= MAG,
                *self == (ConceptFluid {
                    concepts: self.concepts,
                    total_integration: self.total_integration,
                    ..*old(self)
                }),
            decreases n - k,
        {
            let frozen_global = self.is_frozen;
            let c_is_frozen = self.concepts[k].is_frozen;
            if frozen_global && !c_is_frozen {
                let freeze_push = fmul(2_000_000, dt);
                let c = &mut self.concepts[k];
                c.velocity = fadd(fmin(c.velocity, 0), freeze_push);
                let v = c.velocity;
                let dl = fmul(v, dt);
                c.layer = fclamp01(fadd(c.layer, dl));
                proof {
                    lemma_suppressed_step(*old(self), k as int, dt);
                    lemma_gains_step(*old(self), dt, k as int);
                    assert(self.concepts@[k as int] == old(self).spec_concept_step(
                        k as int,
                        dt as int,
                    ));
                    freeze_wf_pointwise(*old(self), *self);
                }
                k = k + 1;
                continue ;
            }
            let ghost c0 = self.concepts@[k as int];
            let ghost env = *self;
            let integration0 = self.concepts[k].integration;
            let concept_id = self.concepts[k].id;
            let stepped = self.integrate_forces(
                &self.concepts[k],
                dt,
                &mut strengthened,
                &mut new_ores,
                &mut events,
            );
            let velocity = stepped.0;
            let new_layer_raw = stepped.1;
            let encounters = stepped.2;
            let has_broken0 = self.concepts[k].has_broken_surface;
            let eddy0 = self.concepts[k].eddy_scale;
            let settled = self.settle_concept(
                concept_id,
                self.concepts[k].name.as_str(),
                new_layer_raw,
                velocity,
                has_broken0,
                eddy0,
                integration0,
                dt,
                &mut events,
            );
            proof {
                crate::fixed::lemma_fx_add_mono(self.total_integration as int, settled.5 as int);
            }
            self.total_integration = fadd(self.total_integration, settled.5);
            let c = &mut self.concepts[k];
            c.velocity = settled.0;
            c.layer = settled.1;
            c.has_broken_surface = settled.2;
            c.eddy_scale = settled.3;
            c.integration = settled.4;
            c.vent_encounters = encounters;
            proof {
                let pre = *old(self);
                lemma_forces_step(
                    pre,
                    env,
                    c0,
                    k as int,
                    dt,
                    stepped.0,
                    stepped.1,
                    stepped.2,
                    settled,
                );
                assert(self.concepts@[k as int] == pre.spec_concept_step(k as int, dt as int));
                lemma_gains_step(pre, dt, k as int);
                freeze_wf_pointwise(pre, *self);
            }
            k = k + 1;
        }
        let ghost mid = *self;
        let mut s: usize = 0;
        while s < strengthened.len()
            invariant
                old(self).wf(),
                forall|i: int| 0 <= i < strengthened@.len() ==> {
                    &&& (#[trigger] strengthened@[i]).0 < self.core_truths@.len()
                    &&& 0 <= strengthened@[i].1 <= MAG
                },
                s <= strengthened@.len(),
                self.concepts == mid.concepts,
                self.total_integration == mid.total_integration,
                self.core_truths@.len() == old(self).core_truths@.len(),
                forall|i: int| 0 <= i < self.core_truths@.len() ==> {
                    let t0 = old(self).core_truths@[i];
                    let t1 = #[trigger] self.core_truths@[i];
                    &&& t1.name == t0.name
                    &&& t1.depth == t0.depth
                    &&& t1.radius == t0.radius
                    &&& t1.heat_output >= t0.heat_output
                    &&& t1.wf()
                },
                *self == (ConceptFluid {
                    concepts: self.concepts,
                    core_truths: self.core_truths,
                    total_integration: self.total_integration,
                    ..*old(self)
                }),
            decreases strengthened@.len() - s,
        {
            let (vi, amount) = strengthened[s];
            let ghost heat_before = self.core_truths@[vi as int].heat_output;
            proof {
                crate::fixed::lemma_fx_add_mono(heat_before as int, amount as int);
            }
            let truth = &mut self.core_truths[vi];
            if truth.activation_count < u32::MAX {
                truth.activation_count = truth.activation_count + 1;
            }
            truth.heat_output = fadd(truth.heat_output, amount);
            s = s + 1;
        }
        let ghost mid2 = *self;
        let mut d: usize = 0;
        while d < new_ores.len()
            invariant
                old(self).wf(),
                forall|i: int| 0 <= i < new_ores@.len() ==> {
                    &&& (#[trigger] new_ores@[i]).wf()
                    &&& new_ores@[i].density == 900_000
                    &&& new_ores@[i].vent_cycles % 3 == 0
                },
                d <= new_ores@.len(),
                self.concepts == mid.concepts,
                self.total_integration == mid.total_integration,
                self.core_truths == mid2.core_truths,
                self.ore_deposits@.len() >= old(self).ore_deposits@.len(),
                forall|i: int| 0 <= i < old(self).ore_deposits@.len()
                    ==> #[trigger] self.ore_deposits@[i] == old(self).ore_deposits@[i],
                forall|i: int| 0 <= i < self.ore_deposits@.len()
                    ==> (#[trigger] self.ore_deposits@[i]).wf(),
                forall|i: int|
                    old(self).ore_deposits@.len() <= i < self.ore_deposits@.len() ==> {
                        &&& (#[trigger] self.ore_deposits@[i]).density == 900_000
                        &&& self.ore_deposits@[i].vent_cycles % 3 == 0
                    },
                self.ocean_floor_pressure == deposit_pressure(
                    old(self).ocean_floor_pressure as int,
                    self.ore_deposits@.skip(old(self).ore_deposits@.len() as int),
                ),
                old(self).ocean_floor_pressure <= self.ocean_floor_pressure <= MAG,
                *self == (ConceptFluid {
                    concepts: self.concepts,
                    core_truths: self.core_truths,
                    ore_deposits: self.ore_deposits,
                    ocean_floor_pressure: self.ocean_floor_pressure,
                    total_integration: self.total_integration,
                    ..*old(self)
                }),
            decreases new_ores@.len() - d,
        {
            proof {
                assert(self.ore_deposits@.skip(old(self).ore_deposits@.len() as int)
                    =~= self.ore_deposits@.skip(old(self).ore_deposits@.len() as int));
            }
            let ghost appended_before = self.ore_deposits@.skip(
                old(self).ore_deposits@.len() as int,
            );
            let ore = &new_ores[d];
            let weight = ore.pressure_weight();
            proof {
                crate::fixed::lemma_fx_add_mono(self.ocean_floor_pressure as int, weight as int);
            }
            self.ocean_floor_pressure = fadd(self.ocean_floor_pressure, weight);
            events.push(
                FluidEvent::OreDeposited {
                    name: copied(ore.name.as_str()),
                    ore_type: copied(ore.ore_type.as_str()),
                    total_pressure: self.ocean_floor_pressure,
                    threshold: self.pressure_threshold,
                },
            );
            let stored = PreciousOre {
                name: copied(ore.name.as_str()),
                ore_type: ore.ore_type,
                density: ore.density,
                depth: ore.depth,
                formed_from: ore.formed_from,
                vent_cycles: ore.vent_cycles,
                integration_value: ore.integration_value,
            };
            self.ore_deposits.push(stored);
            proof {
                assert(self.ore_deposits@.skip(old(self).ore_deposits@.len() as int)
                    =~= appended_before.push(self.ore_deposits@.last()));
                assert(appended_before.push(self.ore_deposits@.last()).drop_last()
                    =~= appended_before);
            }
            d = d + 1;
        }
        proof {
            freeze_wf_pointwise(*old(self), *self);
            reveal(ConceptFluid::forces_pass_rel);
        }
        events
    }

    /// Run one full physics tick: the six passes in their fixed order
    /// (freeze detection, turbulence bookkeeping, ore catalysis, force
    /// integration, evaporation, tectonic shift) with damping decay and
    /// the salinity rise in between, returning every event produced.
    /// Concepts are never removed by a tick, and no concept's accumulated
    /// integration ever decreases.
    #[verifier::rlimit(100)]
    pub fn update(&mut self, dt: i64) -> (r: Vec<FluidEvent>)
        requires
            old(self).wf(),
            0 < dt <= SCALE,
        ensures
            final(self).wf(),
            final(self).tick_count == (if old(self).tick_count < u64::MAX {
                old(self).tick_count + 1
            } else {
                old(self).tick_count as int
            }),
            final(self).concepts@.len() >= old(self).concepts@.len(),
            final(self).total_integration >= old(self).total_integration,
            forall|i: int| 0 <= i < old(self).concepts@.len() ==> {
                &&& (#[trigger] final(self).concepts@[i]).id == old(self).concepts@[i].id
                &&& final(self).concepts@[i].integration >= old(self).concepts@[i].integration
                &&& final(self).concepts@[i].density == old(self).concepts@[i].density
                &&& (old(self).concepts@[i].has_broken_surface
                    ==> final(self).concepts@[i].has_broken_surface)
                &&& (old(self).concepts@[i].has_evaporated
                    ==> final(self).concepts@[i].has_evaporated)
                &&& 0 <= final(self).concepts@[i].layer <= SCALE
                &&& 0 <= final(self).concepts@[i].density <= SCALE
                &&& 0 <= final(self).concepts@[i].buoyancy <= SCALE
            },
            final(self).salinity >= old(self).salinity,
            final(self).atmosphere@.len() >= old(self).atmosphere@.len(),
            final(self).continents@.len() >= old(self).continents@.len(),
            final(self).experiment_results == old(self).experiment_results,
            final(self).standing_waves == old(self).standing_waves,
            final(self).active_experiment == old(self).active_experiment,
            exists|
                s0: ConceptFluid,
                s1: ConceptFluid,
                s2: ConceptFluid,
                s3: ConceptFluid,
                s4: ConceptFluid,
                s5: ConceptFluid,
                s6: ConceptFluid,
                e1: Option<FluidEvent>,
                e2: Seq<FluidEvent>,
                e3: Seq<FluidEvent>,
                e4: Seq<FluidEvent>,
                e5: Seq<FluidEvent>,
                e6: Option<FluidEvent>,
            | {
                &&& s0 == (ConceptFluid { tick_count: final(self).tick_count, ..*old(self) })
                &&& #[trigger] ConceptFluid::freeze_pass_rel(s0, s1, e1, dt)
                &&& #[trigger] ConceptFluid::turbulence_pass_rel(s1, s2, e2, dt)
                &&& #[trigger] ConceptFluid::catalysis_pass_rel(s2, s3, e3)
                &&& #[trigger] ConceptFluid::forces_pass_rel(s3, s4, e4, dt)
                &&& #[trigger] ConceptFluid::decay_salinity_rel(s4, s5, dt)
                &&& #[trigger] ConceptFluid::evaporation_pass_rel(s5, s6, e5)
                &&& #[trigger] ConceptFluid::tectonic_pass_rel(s6, *final(self), e6)
                &&& r@ == opt_event_seq(e1) + e2 + e3 + e4 + e5 + opt_event_seq(e6)
            },
    {
        if self.tick_count < u64::MAX {
            self.tick_count = self.tick_count + 1;
        }
        proof {
            freeze_wf_unchanged(*old(self), *self);
        }
        let ghost s0 = *self;
        let mut events: Vec<FluidEvent> = Vec::new();
        let freeze_event = self.pass_freeze(dt);
        let ghost s1 = *self;
        let ghost ev_freeze = freeze_event;
        match freeze_event {
            Some(e) => {
                events.push(e);
            },
            None => {},
        }
        proof {
            assert(events@ =~= opt_event_seq(ev_freeze));
        }
        let mut turbulence_events = self.pass_turbulence(dt);
        let ghost s2 = *self;
        let ghost ev_turb = turbulence_events@;
        events.append(&mut turbulence_events);
        proof {
            assert(events@ =~= opt_event_seq(ev_freeze) + ev_turb);
        }
        let mut catalysis_events = self.pass_catalysis();
        let ghost s3 = *self;
        let ghost ev_cat = catalysis_events@;
        events.append(&mut catalysis_events);
        proof {
            assert(events@ =~= opt_event_seq(ev_freeze) + ev_turb + ev_cat);
        }
        let mut force_events = self.pass_forces(dt);
        let ghost s4 = *self;
        let ghost ev_forces = force_events@;
        events.append(&mut force_events);
        proof {
            assert(events@ =~= opt_event_seq(ev_freeze) + ev_turb + ev_cat + ev_forces);
        }
        let ghost pre_damp = *self;
        if self.damping_factor > 10_000 {
            let damping = self.damping_factor;
            let slowed = fmul(damping, 950_000);
            proof {
                crate::fixed::lemma_fx_mul_nonneg(damping as int, 950_000);
                crate::fixed::lemma_fx_mul_units(damping as int, 950_000);
            }
            self.damping_factor = slowed;
        } else {
            self.damping_factor = 0;
        }
        let rate_step = fmul(self.salinity_rate, dt);
        let gain = fmul(self.total_integration, rate_step);
        proof {
            crate::fixed::lemma_fx_mul_nonneg(self.salinity_rate as int, dt as int);
            crate::fixed::lemma_fx_mul_nonneg(self.total_integration as int, rate_step as int);
        }
        self.salinity = fadd(self.salinity, gain);
        proof {
            freeze_wf_unchanged(pre_damp, *self);
        }
        let ghost s5 = *self;
        proof {
            assert(ConceptFluid::decay_salinity_rel(s4, s5, dt));
        }
        let mut evaporation_events = self.pass_evaporation();
        let ghost s6 = *self;
        let ghost ev_evap = evaporation_events@;
        events.append(&mut evaporation_events);
        proof {
            assert(events@ =~= opt_event_seq(ev_freeze) + ev_turb + ev_cat + ev_forces + ev_evap);
        }
        let shift_event = self.apply_tectonic_shift();
        let ghost ev_tect = shift_event;
        let ghost before_tect = events@;
        match shift_event {
            Some(e) => {
                events.push(e);
                proof {
                    assert(events@ =~= before_tect + opt_event_seq(ev_tect));
                }
            },
            None => {
                proof {
                    assert(events@ =~= before_tect + opt_event_seq(ev_tect));
                }
            },
        }
        proof {
            assert(events@ =~= opt_event_seq(ev_freeze) + ev_turb + ev_cat + ev_forces + ev_evap
                + opt_event_seq(ev_tect));
            reveal(ConceptFluid::forces_pass_rel);
            assert(s1.tick_count == s0.tick_count);
            assert(s2.tick_count == s1.tick_count);
            assert(s3.tick_count == s2.tick_count);
            assert(s4.tick_count == s3.tick_count);
            assert(s5.tick_count == s4.tick_count);
            assert(s6.tick_count == s5.tick_count);
            assert(self.tick_count == s6.tick_count);
            assert(s0 == (ConceptFluid { tick_count: self.tick_count, ..*old(self) }));
            assert forall|i: int| 0 <= i < old(self).concepts@.len() implies {
                &&& (#[trigger] self.concepts@[i]).id == old(self).concepts@[i].id
                &&& self.concepts@[i].integration >= old(self).concepts@[i].integration
                &&& self.concepts@[i].density == old(self).concepts@[i].density
                &&& 0 <= self.concepts@[i].layer <= SCALE
                &&& 0 <= self.concepts@[i].density <= SCALE
                &&& 0 <= self.concepts@[i].buoyancy <= SCALE
            } by {
                assert(s1.concepts@[i] == s0.spec_freeze_step(
                    i,
                    if s0.is_frozen {
                        -1int
                    } else {
                        freeze_candidate(
                            s0.concepts@,
                            s0.freeze_zone as int,
                            s0.freeze_threshold as int,
                            dt as int,
                        )
                    },
                    dt as int,
                ));
                assert(s2.concepts@[i] == s1.concepts@[i]);
                assert(s3.concepts@[i] == (if catalyzing(s2.ore_deposits@, s2.concepts@[i]) {
                    Concept { ballast: 0, ..s2.concepts@[i] }
                } else {
                    s2.concepts@[i]
                }));
                assert(s4.concepts@[i].integration >= s3.concepts@[i].integration);
                assert(s5.concepts@[i] == s4.concepts@[i]);
                assert(s6.concepts@[i] == (if evaporates(
                    s5.concepts@[i],
                    s5.evaporation_zone as int,
                    s5.evaporation_threshold as int,
                ) {
                    Concept { has_evaporated: true, ..s5.concepts@[i] }
                } else {
                    s5.concepts@[i]
                }));
                assert(self.concepts@[i] == s6.concepts@[i]);
            }
        }
        events
    }

    /// The tectonic shift check: once the accumulated floor pressure
    /// crosses the threshold, a continent forms over a fixed-width band
    /// centered on the mean ore depth, named for the dominant ore type;
    /// every ore deposit is consumed, the pressure resets to zero, and
    /// the shift counter advances by exactly one.
        /// Exactly what the tectonic-shift check does.
    pub open spec fn tectonic_pass_rel(pre: ConceptFluid, post: ConceptFluid, ev_opt: Option<FluidEvent>) -> bool {
        &&& (post.wf())
        &&& (pre.ocean_floor_pressure < pre.pressure_threshold ==> {
                &&& post == pre
                &&& ev_opt is None
            })
        &&& (pre.ocean_floor_pressure >= pre.pressure_threshold ==> {
                let ores = pre.ore_deposits@;
                let n = ores.len() as int;
                let mean = div_tz(ore_depth_sum(ores), if n >= 1 { n } else { 1 });
                let lo_raw = if mean - 75_000 >= 600_000 { mean - 75_000 } else { 600_000int };
                let hi_raw = if mean + 75_000 <= 950_000 { mean + 75_000 } else { 950_000int };
                let lo = if lo_raw <= hi_raw { lo_raw } else { hi_raw };
                let hi = if lo_raw >= hi_raw { lo_raw } else { hi_raw };
                &&& (ev_opt matches Some(ev) && (ev matches FluidEvent::TectonicShift {
                    continent_name,
                    depth_range_top,
                    depth_range_bottom,
                    ores_consumed,
                    total_integration,
                } && continent_name@ == continent_name_of(dominant_ore_type(ores))
                    && depth_range_top == lo && depth_range_bottom == hi
                    && ores_consumed@.len() == ores.len() && (forall|k: int|
                    0 <= k < ores.len() ==> (#[trigger] ores_consumed@[k])@ == ores[k].name@)
                    && total_integration == ore_integration_sum(ores)))
                &&& post.continents@.len() == pre.continents@.len() + 1
                &&& ({
                    let cont = post.continents@.last();
                    &&& cont.name@ == continent_name_of(dominant_ore_type(ores))
                    &&& cont.formed_from_ores@.len() == ores.len()
                    &&& (forall|k: int| 0 <= k < ores.len()
                        ==> (#[trigger] cont.formed_from_ores@[k])@ == ores[k].name@)
                    &&& cont.total_integration == ore_integration_sum(ores)
                    &&& cont.impermeability == 900_000
                    &&& cont.depth_range.0 == lo
                    &&& cont.depth_range.1 == hi
                    &&& cont.formation_event == post.tectonic_shifts
                })
                &&& forall|i: int| 0 <= i < pre.continents@.len()
                    ==> #[trigger] post.continents@[i] == pre.continents@[i]
                &&& post.ore_deposits@.len() == 0
                &&& post.ocean_floor_pressure == 0
                &&& post.tectonic_shifts == (if pre.tectonic_shifts < u32::MAX {
                    pre.tectonic_shifts + 1
                } else {
                    pre.tectonic_shifts as int
                })
                &&& post == (ConceptFluid {
                    continents: post.continents,
                    ore_deposits: post.ore_deposits,
                    ocean_floor_pressure: 0,
                    tectonic_shifts: post.tectonic_shifts,
                    ..pre
                })
            })
    }

    /// The tectonic shift check: once the accumulated floor pressure
    /// crosses the threshold, a continent forms over a fixed-width band
    /// centered on the mean ore depth, named for the dominant ore type;
    /// every ore deposit is consumed, the pressure resets to zero, and
    /// the shift counter advances by exactly one.
    pub fn apply_tectonic_shift(&mut self) -> (r: Option<FluidEvent>)
        requires
            old(self).wf(),
        ensures
            final(self).wf(),
            ConceptFluid::tectonic_pass_rel(*old(self), *final(self), r),
    {
        if self.ocean_floor_pressure < self.pressure_threshold {
            return None;
        }
        let ghost ores = old(self).ore_deposits@;
        let n = self.ore_deposits.len();
        let mut art_count: u64 = 0;
        let mut code_count: u64 = 0;
        let mut insight_count: u64 = 0;
        let mut writing_count: u64 = 0;
        let mut depth_total: i64 = 0;
        let mut integration_total: i64 = 0;
        let mut ore_names: Vec<String> = Vec::new();
        let mut consumed_names: Vec<String> = Vec::new();
        let mut k: usize = 0;
        while k < n
            invariant
                old(self).wf(),
                *self == *old(self),
                ores == old(self).ore_deposits@,
                n == ores.len(),
                k <= n,
                art_count == ore_type_count(ores.take(k as int), OreType::Art),
                code_count == ore_type_count(ores.take(k as int), OreType::Code),
                insight_count == ore_type_count(ores.take(k as int), OreType::Insight),
                writing_count == ore_type_count(ores.take(k as int), OreType::Writing),
                depth_total == ore_depth_sum(ores.take(k as int)),
                integration_total == ore_integration_sum(ores.take(k as int)),
                0 <= depth_total <= MAG,
                depth_total <= k * SCALE,
                0 <= integration_total <= MAG,
                ore_names@.len() == k,
                consumed_names@.len() == k,
                forall|i: int| 0 <= i < k ==> (#[trigger] ore_names@[i])@ == ores[i].name@,
                forall|i: int| 0 <= i < k ==> (#[trigger] consumed_names@[i])@ == ores[i].name@,
            decreases n - k,
        {
            proof {
                assert(ores.take(k + 1 as int).drop_last() =~= ores.take(k as int));
                assert(ores.take(k + 1 as int).last() == ores[k as int]);
                lemma_ore_type_count_bound(ores.take(k as int), OreType::Art);
                lemma_ore_type_count_bound(ores.take(k as int), OreType::Code);
                lemma_ore_type_count_bound(ores.take(k as int), OreType::Insight);
                lemma_ore_type_count_bound(ores.take(k as int), OreType::Writing);
                assert((k + 1) * SCALE == k * SCALE + SCALE) by (nonlinear_arith);
                assert(0 <= k * SCALE) by (nonlinear_arith)
                    requires 0 <= k;
            }
            let ore = &self.ore_deposits[k];
            match ore.ore_type {
                OreType::Art => { art_count = art_count + 1; },
                OreType::Code => { code_count = code_count + 1; },
                OreType::Insight => { insight_count = insight_count + 1; },
                OreType::Writing => { writing_count = writing_count + 1; },
            }
            depth_total = fadd(depth_total, ore.depth);
            integration_total = fadd(integration_total, ore.integration_value);
            ore_names.push(copied(ore.name.as_str()));
            consumed_names.push(copied(ore.name.as_str()));
            k = k + 1;
        }
        proof {
            assert(ores.take(n as int) =~= ores);
        }
        let continent_name: &str = if n == 0 {
            "pillar_of_wisdom"
        } else if art_count >= code_count && art_count >= insight_count
            && art_count >= writing_count {
            "foundation_of_beauty"
        } else if code_count >= insight_count && code_count >= writing_count {
            "bedrock_of_logic"
        } else if insight_count >= writing_count {
            "pillar_of_wisdom"
        } else {
            "archive_of_story"
        };
        let avg_ore_depth = if n == 0 {
            0
        } else if (n as u64) > (MAG as u64) {
            proof {
                assert(ore_depth_sum(ores) / (n as int) == 0) by (nonlinear_arith)
                    requires 0 <= ore_depth_sum(ores) <= MAG, ore_depth_sum(ores) < n as int;
            }
            0
        } else {
            let m = fdivi(depth_total, n as i64);
            proof {
                assert(0 <= div_tz(depth_total as int, n as int) <= SCALE) by (nonlinear_arith)
                    requires
                        0 <= depth_total as int <= (n as int) * SCALE,
                        n as int >= 1;
            }
            m
        };
        proof {
            assert(0 <= avg_ore_depth <= SCALE);
        }
        let lo_raw = fmax(fsub(avg_ore_depth, 75_000), 600_000);
        let hi_raw = fmin(fadd(avg_ore_depth, 75_000), 950_000);
        let lo = fmin(lo_raw, hi_raw);
        let hi = fmax(lo_raw, hi_raw);
        if self.tectonic_shifts < u32::MAX {
            self.tectonic_shifts = self.tectonic_shifts + 1;
        }
        let continent = Continent {
            name: copied(continent_name),
            depth_range: (lo, hi),
            formed_from_ores: ore_names,
            total_integration: integration_total,
            impermeability: 900_000,
            formation_event: self.tectonic_shifts,
        };
        let event = FluidEvent::TectonicShift {
            continent_name: copied(continent_name),
            depth_range_top: lo,
            depth_range_bottom: hi,
            ores_consumed: consumed_names,
            total_integration: integration_total,
        };
        self.continents.push(continent);
        self.ocean_floor_pressure = 0;
        self.ore_deposits = Vec::new();
        proof {
            freeze_wf_unchanged(*old(self), *self);
        }
        Some(event)
    }
}

impl ConceptFluid {
    /// The concepts whose layer lies in `[min_depth, max_depth]`, in
    /// store order.
    pub fn get_concepts_in_range(&self, min_depth: i64, max_depth: i64) -> (r: Vec<&Concept>)
        ensures
            r@.map_values(|c: &Concept| *c) == self.concepts@.filter(
                |c: Concept| min_depth <= c.layer <= max_depth,
            ),
    {
        let mut out: Vec<&Concept> = Vec::new();
        let n = self.concepts.len();
        let mut k: usize = 0;
        proof {
            reveal(Seq::filter);
        }
        while k < n
            invariant
                n == self.concepts@.len(),
                k <= n,
                out@.map_values(|c: &Concept| *c) == self.concepts@.take(k as int).filter(
                    |c: Concept| min_depth <= c.layer <= max_depth,
                ),
            decreases n - k,
        {
            proof {
                reveal(Seq::filter);
                assert(self.concepts@.take(k + 1 as int).drop_last() =~= self.concepts@.take(
                    k as int,
                ));
                assert(self.concepts@.take(k + 1 as int).last() == self.concepts@[k as int]);
            }
            if self.concepts[k].layer >= min_depth && self.concepts[k].layer <= max_depth {
                out.push(&self.concepts[k]);
            }
            proof {
                assert(out@.map_values(|c: &Concept| *c) =~= self.concepts@.take(
                    k + 1 as int,
                ).filter(|c: Concept| min_depth <= c.layer <= max_depth));
            }
            k = k + 1;
        }
        proof {
            assert(self.concepts@.take(n as int) =~= self.concepts@);
        }
        out
    }

    /// The ore deposits whose depth lies in `[min_depth, max_depth]`, in
    /// deposit order.
    pub fn get_ores_in_range(&self, min_depth: i64, max_depth: i64) -> (r: Vec<&PreciousOre>)
        ensures
            r@.map_values(|o: &PreciousOre| *o) == self.ore_deposits@.filter(
                |o: PreciousOre| min_depth <= o.depth <= max_depth,
            ),
    {
        let mut out: Vec<&PreciousOre> = Vec::new();
        let n = self.ore_deposits.len();
        let mut k: usize = 0;
        proof {
            reveal(Seq::filter);
        }
        while k < n
            invariant
                n == self.ore_deposits@.len(),
                k <= n,
                out@.map_values(|o: &PreciousOre| *o) == self.ore_deposits@.take(k as int).filter(
                    |o: PreciousOre| min_depth <= o.depth <= max_depth,
                ),
            decreases n - k,
        {
            proof {
                reveal(Seq::filter);
                assert(self.ore_deposits@.take(k + 1 as int).drop_last() =~= self.ore_deposits@.take(
                    k as int,
                ));
                assert(self.ore_deposits@.take(k + 1 as int).last() == self.ore_deposits@[k as int]);
            }
            if self.ore_deposits[k].depth >= min_depth && self.ore_deposits[k].depth <= max_depth {
                out.push(&self.ore_deposits[k]);
            }
            proof {
                assert(out@.map_values(|o: &PreciousOre| *o) =~= self.ore_deposits@.take(
                    k + 1 as int,
                ).filter(|o: PreciousOre| min_depth <= o.depth <= max_depth));
            }
            k = k + 1;
        }
        proof {
            assert(self.ore_deposits@.take(n as int) =~= self.ore_deposits@);
        }
        out
    }

    /// The concepts above the given depth threshold, ordered from the
    /// surface downward.
    pub fn get_surface_concepts(&self, threshold: i64) -> (r: Vec<&Concept>)
        ensures
            forall|i: int, j: int| 0 <= i <= j < r@.len()
                ==> (#[trigger] r@[i]).layer <= (#[trigger] r@[j]).layer,
            r@.map_values(|c: &Concept| *c).to_multiset() == self.concepts@.filter(
                |c: Concept| c.layer < threshold,
            ).to_multiset(),
    {
        let mut collected: Vec<&Concept> = Vec::new();
        let n = self.concepts.len();
        let mut k: usize = 0;
        proof {
            reveal(Seq::filter);
        }
        while k < n
            invariant
                n == self.concepts@.len(),
                k <= n,
                collected@.map_values(|c: &Concept| *c) == self.concepts@.take(k as int).filter(
                    |c: Concept| c.layer < threshold,
                ),
            decreases n - k,
        {
            proof {
                reveal(Seq::filter);
                assert(self.concepts@.take(k + 1 as int).drop_last() =~= self.concepts@.take(
                    k as int,
                ));
                assert(self.concepts@.take(k + 1 as int).last() == self.concepts@[k as int]);
            }
            if self.concepts[k].layer < threshold {
                collected.push(&self.concepts[k]);
            }
            proof {
                assert(collected@.map_values(|c: &Concept| *c) =~= self.concepts@.take(
                    k + 1 as int,
                ).filter(|c: Concept| c.layer < threshold));
            }
            k = k + 1;
        }
        proof {
            assert(self.concepts@.take(n as int) =~= self.concepts@);
        }
        let ghost wanted = self.concepts@.filter(|c: Concept| c.layer < threshold);
        let mut rest = collected;
        let mut out: Vec<&Concept> = Vec::new();
        proof {
            broadcast use vstd::seq_lib::group_to_multiset_ensures;

            assert(out@.map_values(|c: &Concept| *c).to_multiset().add(
                rest@.map_values(|c: &Concept| *c).to_multiset(),
            ) =~= wanted.to_multiset());
        }
        while rest.len() > 0
            invariant
                out@.map_values(|c: &Concept| *c).to_multiset().add(
                    rest@.map_values(|c: &Concept| *c).to_multiset(),
                ) == wanted.to_multiset(),
                forall|i: int, j: int| 0 <= i <= j < out@.len()
                    ==> (#[trigger] out@[i]).layer <= (#[trigger] out@[j]).layer,
                forall|i: int, j: int|
                    0 <= i < out@.len() && 0 <= j < rest@.len() ==> (#[trigger] out@[i]).layer
                        <= (#[trigger] rest@[j]).layer,
            decreases rest@.len(),
        {
            let mut m: usize = 0;
            let mut q: usize = 1;
            while q < rest.len()
                invariant
                    rest@.len() > 0,
                    m < q <= rest@.len(),
                    forall|j: int| 0 <= j < q ==> (#[trigger] rest@[j]).layer
                        >= rest@[m as int].layer,
                decreases rest@.len() - q,
            {
                if rest[q].layer < rest[m].layer {
                    m = q;
                }
                q = q + 1;
            }
            let ghost rest_before = rest@;
            let ghost out_before = out@;
            let picked = rest.remove(m);
            out.push(picked);
            proof {
                broadcast use vstd::seq_lib::group_to_multiset_ensures;

                let f = |c: &Concept| *c;
                assert(rest@ == rest_before.remove(m as int));
                assert(rest@.map_values(f) =~= rest_before.map_values(f).remove(m as int));
                assert(out@.map_values(f) =~= out_before.map_values(f).push(*picked));
                assert((out_before.map_values(f).push(*picked)).to_multiset()
                    =~= out_before.map_values(f).to_multiset().insert(*picked));
                assert((rest_before.map_values(f).remove(m as int)).to_multiset()
                    =~= rest_before.map_values(f).to_multiset().remove(
                    rest_before.map_values(f)[m as int],
                ));
                assert(rest_before.map_values(f)[m as int] == *picked);
                assert(rest_before.map_values(f).to_multiset().count(*picked) > 0);
                assert(out@.map_values(f).to_multiset().add(rest@.map_values(f).to_multiset())
                    =~= wanted.to_multiset());
                assert forall|i: int, j: int|
                    0 <= i < out@.len() && 0 <= j < rest@.len() implies (
                #[trigger] out@[i]).layer <= (#[trigger] rest@[j]).layer by {
                    if j < m as int {
                        assert(rest@[j] == rest_before[j]);
                    } else {
                        assert(rest@[j] == rest_before[j + 1]);
                    }
                }
            }
        }
        out
    }
}

/// The fixed continent name each dominant ore type gives rise to.
pub open spec fn continent_name_of(t: OreType) -> Seq<char> {
    if t is Art {
        "foundation_of_beauty"@
    } else if t is Code {
        "bedrock_of_logic"@
    } else if t is Insight {
        "pillar_of_wisdom"@
    } else {
        "archive_of_story"@
    }
}

/// Type tallies never exceed the number of ores.
pub proof fn lemma_ore_type_count_bound(ores: Seq<PreciousOre>, t: OreType)
    ensures
        0 <= ore_type_count(ores, t) <= ores.len(),
    decreases ores.len(),
{
    if ores.len() > 0 {
        lemma_ore_type_count_bound(ores.drop_last(), t);
    }
}

/// The freeze bookkeeping survives removing one concept, with the global
/// flag cleared when the removed concept held the freeze.
proof fn freeze_wf_after_remove(pre: ConceptFluid, post: ConceptFluid, k: int)
    requires
        pre.freeze_wf(),
        0 <= k < pre.concepts@.len(),
        post.concepts@ == pre.concepts@.remove(k),
        pre.concepts@[k].is_frozen ==> !post.is_frozen && post.frozen_concept is None,
        !pre.concepts@[k].is_frozen ==> post.is_frozen == pre.is_frozen
            && post.frozen_concept == pre.frozen_concept,
    ensures
        post.freeze_wf(),
{
    let n = pre.concepts@.len() as int;
    assert forall|i: int| 0 <= i < post.concepts@.len() implies #[trigger] post.concepts@[i]
        == (if i < k {
        pre.concepts@[i]
    } else {
        pre.concepts@[i + 1]
    }) by {}
    assert forall|i: int, j: int|
        0 <= i < post.concepts@.len() && 0 <= j < post.concepts@.len()
            && (#[trigger] post.concepts@[i]).is_frozen && (
        #[trigger] post.concepts@[j]).is_frozen implies i == j by {
        let pi = if i < k { i } else { i + 1 };
        let pj = if j < k { j } else { j + 1 };
        assert(pre.concepts@[pi].is_frozen && pre.concepts@[pj].is_frozen);
    }
    if pre.concepts@[k].is_frozen {
        assert forall|i: int| 0 <= i < post.concepts@.len() implies !(
        #[trigger] post.concepts@[i]).is_frozen by {
            let pi = if i < k { i } else { i + 1 };
            if pre.concepts@[pi].is_frozen {
                assert(pi == k);
            }
        }
    } else if pre.is_frozen {
        let w = choose|i: int|
            0 <= i < pre.concepts@.len() && (#[trigger] pre.concepts@[i]).is_frozen;
        assert(w != k);
        let pw = if w < k { w } else { w - 1 };
        assert(post.concepts@[pw].is_frozen);
        if pre.frozen_concept is Some {
            let fid = pre.frozen_concept->0;
            let w2 = choose|i: int|
                0 <= i < pre.concepts@.len() && (#[trigger] pre.concepts@[i]).is_frozen
                    && pre.concepts@[i].id == fid;
            assert(w2 != k);
            let pw2 = if w2 < k { w2 } else { w2 - 1 };
            assert(post.concepts@[pw2].is_frozen && post.concepts@[pw2].id == fid);
        }
    } else {
        assert forall|i: int| 0 <= i < post.concepts@.len() implies !(
        #[trigger] post.concepts@[i]).is_frozen by {
            let pi = if i < k { i } else { i + 1 };
            assert(!pre.concepts@[pi].is_frozen);
        }
    }
}

/// The freeze bookkeeping survives appending an unfrozen concept.
proof fn freeze_wf_after_push(pre: ConceptFluid, post: ConceptFluid, c: Concept)
    requires
        pre.freeze_wf(),
        post.concepts@ == pre.concepts@.push(c),
        !c.is_frozen,
        post.is_frozen == pre.is_frozen,
        post.frozen_concept == pre.frozen_concept,
    ensures
        post.freeze_wf(),
{
    let n = pre.concepts@.len() as int;
    assert forall|i: int, j: int|
        0 <= i < post.concepts@.len() && 0 <= j < post.concepts@.len()
            && (#[trigger] post.concepts@[i]).is_frozen && (
        #[trigger] post.concepts@[j]).is_frozen implies i == j by {
        assert(i < n && j < n);
        assert(pre.concepts@[i].is_frozen && pre.concepts@[j].is_frozen);
    }
    if pre.is_frozen {
        let w = choose|i: int|
            0 <= i < pre.concepts@.len() && (#[trigger] pre.concepts@[i]).is_frozen;
        assert(post.concepts@[w].is_frozen);
        if pre.frozen_concept is Some {
            let fid = pre.frozen_concept->0;
            let w2 = choose|i: int|
                0 <= i < pre.concepts@.len() && (#[trigger] pre.concepts@[i]).is_frozen
                    && pre.concepts@[i].id == fid;
            assert(post.concepts@[w2].is_frozen && post.concepts@[w2].id == fid);
        }
    } else {
        assert forall|i: int| 0 <= i < post.concepts@.len() implies !(
        #[trigger] post.concepts@[i]).is_frozen by {
            if i < n {
                assert(!pre.concepts@[i].is_frozen);
            }
        }
    }
}

/// The freeze bookkeeping carries over unchanged concept and flag state.
proof fn freeze_wf_unchanged(pre: ConceptFluid, post: ConceptFluid)
    requires
        pre.freeze_wf(),
        post.concepts@ == pre.concepts@,
        post.is_frozen == pre.is_frozen,
        post.frozen_concept == pre.frozen_concept,
    ensures
        post.freeze_wf(),
{
    if pre.is_frozen {
        let w = choose|i: int|
            0 <= i < pre.concepts@.len() && (#[trigger] pre.concepts@[i]).is_frozen;
        assert(post.concepts@[w].is_frozen);
        if pre.frozen_concept is Some {
            let fid = pre.frozen_concept->0;
            let w2 = choose|i: int|
                0 <= i < pre.concepts@.len() && (#[trigger] pre.concepts@[i]).is_frozen
                    && pre.concepts@[i].id == fid;
            assert(post.concepts@[w2].is_frozen && post.concepts@[w2].id == fid);
        }
    } else {
        assert forall|i: int| 0 <= i < post.concepts@.len() implies !(
        #[trigger] post.concepts@[i]).is_frozen by {
            assert(!pre.concepts@[i].is_frozen);
        }
    }
}

/// A concept found by a scan with a clean prefix is the first match.
proof fn concept_found_is_first(s: Seq<Concept>, id: u128, k: int)
    requires
        0 <= k < s.len(),
        s[k].id == id,
        forall|j: int| 0 <= j < k ==> (#[trigger] s[j]).id != id,
    ensures
        concept_index(s, id) == k,
{
    lemma_concept_index(s, id);
    let si = concept_index(s, id);
    if si < 0 {
        assert(s[k].id != id);
    } else if si < k {
        assert(s[si].id != id);
    } else if si > k {
        assert(s[k].id != id);
    }
}

/// Updating one concept's fields other than the freeze flag and the
/// identifier preserves the freeze bookkeeping.
proof fn freeze_wf_after_update(pre: ConceptFluid, post: ConceptFluid, k: int)
    requires
        pre.freeze_wf(),
        0 <= k < pre.concepts@.len(),
        post.concepts@.len() == pre.concepts@.len(),
        forall|i: int| 0 <= i < pre.concepts@.len() && i != k
            ==> #[trigger] post.concepts@[i] == pre.concepts@[i],
        post.concepts@[k].is_frozen == pre.concepts@[k].is_frozen,
        post.concepts@[k].id == pre.concepts@[k].id,
        post.is_frozen == pre.is_frozen,
        post.frozen_concept == pre.frozen_concept,
    ensures
        post.freeze_wf(),
{
    assert forall|i: int, j: int|
        0 <= i < post.concepts@.len() && 0 <= j < post.concepts@.len()
            && (#[trigger] post.concepts@[i]).is_frozen && (
        #[trigger] post.concepts@[j]).is_frozen implies i == j by {
        assert(pre.concepts@[i].is_frozen && pre.concepts@[j].is_frozen);
    }
    if pre.is_frozen {
        let w = choose|i: int|
            0 <= i < pre.concepts@.len() && (#[trigger] pre.concepts@[i]).is_frozen;
        assert(post.concepts@[w].is_frozen);
        if pre.frozen_concept is Some {
            let fid = pre.frozen_concept->0;
            let w2 = choose|i: int|
                0 <= i < pre.concepts@.len() && (#[trigger] pre.concepts@[i]).is_frozen
                    && pre.concepts@[i].id == fid;
            assert(post.concepts@[w2].is_frozen && post.concepts@[w2].id == fid);
        }
    } else {
        assert forall|i: int| 0 <= i < post.concepts@.len() implies !(
        #[trigger] post.concepts@[i]).is_frozen by {
            assert(!pre.concepts@[i].is_frozen);
        }
    }
}

} // verus!
