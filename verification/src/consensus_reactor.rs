//! The consensus reactor: two opposing force sources collide over a probe
//! field, jitter statistics settle, and at a detected phase transition the
//! probe field is frozen and tessellated into territories from which a
//! structured artifact crystallizes.

use vstd::prelude::*;

verus! {

use crate::fixed::{
    clamped, div_tz, fabs, fadd, fclamp01, fdiv, fdivi, fhalf, fmax, fmin, fmul, fneg, fsub,
    fx_add, fx_div, fx_mul, fx_ok, fx_sub, mag, MAG, SCALE,
};
use crate::ids::fresh_id;
use crate::text::{copied, lower_of, lowercase, underscored};
use vstd::arithmetic::div_mod::{lemma_fundamental_div_mod, lemma_mod_bound};

/// Which contradictory vent dominated a probe's final state.
#[derive(Clone, Copy, Debug, PartialEq, Eq, Structural)]
pub enum VentDominance {
    /// Settled closer to vent A's influence.
    VentA,
    /// Settled closer to vent B's influence.
    VentB,
    /// In the collision zone: contested territory.
    Contested,
    /// Escaped both influences.
    Escaped,
}

/// A frozen probe state at the moment of phase transition.
#[derive(Clone, Copy)]
pub struct FrozenProbe {
    pub id: u128,
    /// Position in depth space, in `[0, SCALE]`.
    pub depth: i64,
    /// Velocity at the freeze moment.
    pub frozen_velocity: i64,
    /// Which vent dominated this probe's motion.
    pub dominant_vent: VentDominance,
    /// Distance to the nearest neighboring probe.
    pub nearest_neighbor_dist: i64,
    /// Local probe density: the inverse of the neighbor distance.
    pub local_density: i64,
}

/// A Voronoi cell in the one-dimensional depth space: the territory owned
/// by one probe, bounded by midpoints to its neighbors.
#[derive(Clone, Copy)]
pub struct VoronoiCell {
    /// The probe that owns this cell.
    pub owner_id: u128,
    /// Center position: the probe's depth.
    pub center: i64,
    /// Left boundary of the cell.
    pub left_bound: i64,
    /// Right boundary of the cell.
    pub right_bound: i64,
    /// Cell width: `right_bound - left_bound`.
    pub width: i64,
    /// Which vent dominates this cell.
    pub dominance: VentDominance,
}

/// An emergent property extracted from the phase structure.
pub struct EmergentProperty {
    /// Name of the property.
    pub name: String,
    /// The physical basis for this property.
    pub physical_basis: String,
    /// Confidence based on structural stability.
    pub confidence: i64,
    /// Depth range where this property manifests.
    pub depth_range: (i64, i64),
}

/// The complete structure extracted at a phase transition.
pub struct PhaseStructure {
    pub id: u128,
    /// When the phase transition occurred (tick).
    pub transition_tick: u64,
    /// Jitter level that triggered the transition.
    pub trigger_jitter: i64,
    /// The frozen probe states, ordered by depth.
    pub frozen_probes: Vec<FrozenProbe>,
    /// Voronoi tessellation of the depth space, ordered by center.
    pub voronoi_cells: Vec<VoronoiCell>,
    /// Fraction of the depth space controlled by vent A, in `[0, SCALE]`.
    pub vent_a_territory: i64,
    /// Fraction controlled by vent B, in `[0, SCALE]`.
    pub vent_b_territory: i64,
    /// Contested fraction, in `[0, SCALE]`.
    pub contested_territory: i64,
    /// The depth where the territories meet.
    pub collision_boundary: i64,
    /// Emergent properties extracted from the structure.
    pub emergent_properties: Vec<EmergentProperty>,
    /// The synthesized material's name.
    pub material_name: String,
    /// Description of the synthesized material.
    pub material_description: String,
    /// The first input position, for reference.
    pub position_a: String,
    /// The second input position, for reference.
    pub position_b: String,
}

impl PhaseStructure {
    /// The numeric fields are inside their documented bands.
    pub open spec fn wf(self) -> bool {
        &&& 0 <= self.vent_a_territory <= SCALE
        &&& 0 <= self.vent_b_territory <= SCALE
        &&& 0 <= self.contested_territory <= SCALE
        &&& 0 <= self.collision_boundary <= SCALE
        &&& 0 <= self.trigger_jitter <= MAG
        &&& self.frozen_probes@.len() <= SCALE
        &&& forall|i: int| 0 <= i < self.frozen_probes@.len() ==> {
            &&& 0 <= (#[trigger] self.frozen_probes@[i]).depth <= SCALE
            &&& 0 <= self.frozen_probes@[i].local_density <= MAG
        }
    }

    /// A sharp boundary: a small contested zone flanked by real territory
    /// on both sides.
    pub open spec fn cond_sovereignty(self) -> bool {
        &&& self.contested_territory < 300_000
        &&& self.vent_a_territory > 200_000
        &&& self.vent_b_territory > 200_000
    }

    /// A wide contested zone: properties blend rather than split.
    pub open spec fn cond_gradient(self) -> bool {
        self.contested_territory > 300_000
    }

    /// The territory ratio of vent A over vent B (guarded against a zero
    /// denominator).
    pub open spec fn territory_ratio(self) -> int {
        fx_div(
            self.vent_a_territory as int,
            if self.vent_b_territory >= 1_000 { self.vent_b_territory as int } else { 1_000 },
        )
    }

    /// One side captures more than twice the other's territory.
    pub open spec fn cond_advantage(self) -> bool {
        self.territory_ratio() > 2 * SCALE || self.territory_ratio() < SCALE as int / 2
    }

    /// Probes cluster with clearly different densities near the surface
    /// and in the deep.
    pub open spec fn cond_stratification(self) -> bool {
        &&& Self::density_count(self.frozen_probes@, true) > 0
        &&& Self::density_count(self.frozen_probes@, false) > 0
        &&& {
            let dr = self.density_ratio();
            dr > 1_500_000 || dr < 670_000
        }
    }

    /// A probe counts toward the surface band (depth below `0.3`) or the
    /// deep band (depth above `0.7`).
    pub open spec fn in_band(p: FrozenProbe, surface: bool) -> bool {
        if surface { p.depth < 300_000 } else { p.depth > 700_000 }
    }

    /// Saturating sum of the local densities of the probes in one band.
    pub open spec fn density_sum(probes: Seq<FrozenProbe>, surface: bool) -> int
        decreases probes.len(),
    {
        if probes.len() == 0 {
            0
        } else {
            let rest = Self::density_sum(probes.drop_last(), surface);
            if Self::in_band(probes.last(), surface) {
                fx_add(rest, probes.last().local_density as int)
            } else {
                rest
            }
        }
    }

    /// How many probes qualify for the surface (or deep) band.
    pub open spec fn density_count(probes: Seq<FrozenProbe>, surface: bool) -> int
        decreases probes.len(),
    {
        if probes.len() == 0 {
            0
        } else {
            Self::density_count(probes.drop_last(), surface) + if Self::in_band(
                probes.last(),
                surface,
            ) {
                1int
            } else {
                0int
            }
        }
    }

    /// The ratio of the average surface probe density to the average deep
    /// probe density (guarded against a zero denominator); meaningful only
    /// when both bands hold a probe.
    pub open spec fn density_ratio(self) -> int {
        let p = self.frozen_probes@;
        let sd = div_tz(Self::density_sum(p, true), Self::density_count(p, true));
        let dd = div_tz(Self::density_sum(p, false), Self::density_count(p, false));
        fx_div(sd, if dd >= 1_000 { dd } else { 1_000 })
    }

    /// Extract the emergent properties from the physical structure: up to
    /// four rules fire, each appending a named, confidence-scored,
    /// depth-ranged property.  The sharp-boundary and wide-zone rules are
    /// mutually exclusive, so each property's position is determined.
    #[verifier::rlimit(100)]
    pub fn extract_emergent_properties(&mut self)
        requires
            old(self).wf(),
        ensures
            final(self).wf(),
            *final(self) == (PhaseStructure {
                emergent_properties: final(self).emergent_properties,
                ..*old(self)
            }),
            final(self).emergent_properties@.len() == (if old(self).cond_sovereignty() {
                1int
            } else {
                0int
            }) + (if old(self).cond_gradient() { 1int } else { 0int }) + (if old(
                self,
            ).cond_advantage() {
                1int
            } else {
                0int
            }) + (if old(self).cond_stratification() { 1int } else { 0int }),
            old(self).cond_sovereignty() ==> {
                let p = final(self).emergent_properties@[0];
                &&& p.name@ == "Contextual Sovereignty"@
                &&& p.confidence == fx_sub(SCALE as int, old(self).contested_territory as int)
                &&& p.depth_range.0 == 0 && p.depth_range.1 == SCALE
            },
            old(self).cond_gradient() ==> {
                let p = final(self).emergent_properties@[0];
                &&& p.name@ == "Gradient Transition"@
                &&& p.confidence == old(self).contested_territory
                &&& p.depth_range.0 == clamped(
                    old(self).collision_boundary - old(self).contested_territory as int / 2,
                    0,
                    SCALE as int,
                )
                &&& p.depth_range.1 == clamped(
                    old(self).collision_boundary + old(self).contested_territory as int / 2,
                    0,
                    SCALE as int,
                )
            },
            old(self).cond_advantage() ==> {
                let i = if old(self).cond_sovereignty() || old(self).cond_gradient() {
                    1int
                } else {
                    0int
                };
                let p = final(self).emergent_properties@[i];
                let tr = old(self).territory_ratio();
                let rr = if tr > SCALE { tr } else { fx_div(SCALE as int, if tr >= 1 { tr } else { 1 }) };
                &&& p.name@ == "Structural Advantage"@
                &&& p.confidence == if fx_sub(rr, SCALE as int) <= SCALE {
                    fx_sub(rr, SCALE as int)
                } else {
                    SCALE as int
                }
                &&& p.depth_range.0 == 0 && p.depth_range.1 == SCALE
            },
            old(self).cond_stratification() ==> {
                let i = (if old(self).cond_sovereignty() || old(self).cond_gradient() {
                    1int
                } else {
                    0int
                }) + (if old(self).cond_advantage() { 1int } else { 0int });
                let p = final(self).emergent_properties@[i];
                let c = mag(fx_sub(old(self).density_ratio(), SCALE as int));
                &&& p.name@ == "Density Stratification"@
                &&& p.confidence == if c <= SCALE { c } else { SCALE as int }
                &&& p.depth_range.0 == 0 && p.depth_range.1 == SCALE
            },
    {
        self.emergent_properties = Vec::new();
        if self.contested_territory < 300_000 && self.vent_a_territory > 200_000
            && self.vent_b_territory > 200_000 {
            let confidence = fsub(SCALE, self.contested_territory);
            self.emergent_properties.push(
                EmergentProperty {
                    name: copied("Contextual Sovereignty"),
                    physical_basis: copied(
                        "a sharp collision boundary separates the two domains, each side keeping real territory",
                    ),
                    confidence,
                    depth_range: (0, SCALE),
                },
            );
        }
        if self.contested_territory > 300_000 {
            let half_zone = fhalf(self.contested_territory);
            self.emergent_properties.push(
                EmergentProperty {
                    name: copied("Gradient Transition"),
                    physical_basis: copied(
                        "a large contested zone blends both properties across a band of depths",
                    ),
                    confidence: self.contested_territory,
                    depth_range: (
                        fclamp01(fsub(self.collision_boundary, half_zone)),
                        fclamp01(fadd(self.collision_boundary, half_zone)),
                    ),
                },
            );
        }
        let denom = fmax(self.vent_b_territory, 1_000);
        let ratio = fdiv(self.vent_a_territory, denom);
        if ratio > 2 * SCALE || ratio < 500_000 {
            let rr = if ratio > SCALE {
                ratio
            } else {
                fdiv(SCALE, fmax(ratio, 1))
            };
            let confidence = fmin(fsub(rr, SCALE), SCALE);
            self.emergent_properties.push(
                EmergentProperty {
                    name: copied("Structural Advantage"),
                    physical_basis: copied(
                        "one position captures a physically sustainable majority of the territory",
                    ),
                    confidence,
                    depth_range: (0, SCALE),
                },
            );
        }
        let mut surface_sum: i64 = 0;
        let mut surface_cnt: i64 = 0;
        let mut deep_sum: i64 = 0;
        let mut deep_cnt: i64 = 0;
        let probes = &self.frozen_probes;
        let mut k: usize = 0;
        while k < probes.len()
            invariant
                self.wf(),
                probes == &self.frozen_probes,
                k <= probes@.len(),
                surface_sum == Self::density_sum(probes@.take(k as int), true),
                surface_cnt == Self::density_count(probes@.take(k as int), true),
                deep_sum == Self::density_sum(probes@.take(k as int), false),
                deep_cnt == Self::density_count(probes@.take(k as int), false),
                0 <= surface_sum <= MAG,
                0 <= deep_sum <= MAG,
                0 <= surface_cnt <= k,
                0 <= deep_cnt <= k,
            decreases probes@.len() - k,
        {
            proof {
                assert(probes@.take(k + 1 as int).drop_last() =~= probes@.take(k as int));
            }
            let p = &probes[k];
            if p.depth < 300_000 {
                surface_sum = fadd(surface_sum, p.local_density);
                surface_cnt = surface_cnt + 1;
            }
            if p.depth > 700_000 {
                deep_sum = fadd(deep_sum, p.local_density);
                deep_cnt = deep_cnt + 1;
            }
            k = k + 1;
        }
        proof {
            assert(probes@.take(probes@.len() as int) =~= probes@);
        }
        if surface_cnt > 0 && deep_cnt > 0 {
            let sd = fdivi(surface_sum, surface_cnt);
            let dd = fdivi(deep_sum, deep_cnt);
            let dr = fdiv(sd, fmax(dd, 1_000));
            if dr > 1_500_000 || dr < 670_000 {
                let confidence = fmin(fabs(fsub(dr, SCALE)), SCALE);
                self.emergent_properties.push(
                    EmergentProperty {
                        name: copied("Density Stratification"),
                        physical_basis: copied(
                            "probes cluster densely at one level and sparsely at the other, giving depth-dependent visibility",
                        ),
                        confidence,
                        depth_range: (0, SCALE),
                    },
                );
            }
        }
    }

    /// Does some extracted property carry the stratification name?
    pub open spec fn has_stratification(self) -> bool {
        exists|i: int|
            0 <= i < self.emergent_properties@.len()
                && (#[trigger] self.emergent_properties@[i]).name@ == "Density Stratification"@
    }

    /// The synthesized material's name, from the structure's dominant
    /// features.
    pub open spec fn material_name_of(self) -> Seq<char> {
        let hb = self.contested_territory < 300_000;
        let hg = self.contested_territory > 300_000;
        let ha = mag(self.vent_a_territory - self.vent_b_territory as int) > 300_000;
        let hs = self.has_stratification();
        if hb && hs {
            "Contextual Sovereignty"@
        } else if hg && !ha {
            "Graduated Synthesis"@
        } else if ha && hb {
            "Dominant Resolution"@
        } else if hg && hs {
            "Stratified Gradient"@
        } else if self.contested_territory > 600_000 {
            "Persistent Tension"@
        } else {
            "Emergent Equilibrium"@
        }
    }

    /// The descriptive phrase attached to each material name.
    pub open spec fn material_phrase(name: Seq<char>) -> Seq<char> {
        if name == "Contextual Sovereignty"@ {
            "the boundary is where the physics naturally separates concerns"@
        } else if name == "Graduated Synthesis"@ {
            "both properties blend proportionally across a gradient zone"@
        } else if name == "Dominant Resolution"@ {
            "one position structurally dominates: it is what survives the collision dynamics"@
        } else if name == "Stratified Gradient"@ {
            "behavior differs by depth, and the gradient between the levels is the actual policy"@
        } else if name == "Persistent Tension"@ {
            "the contested zone never resolves: the oscillation itself is the stable state"@
        } else {
            "an equilibrium forms at the collision boundary"@
        }
    }

    /// Name and describe the synthesized material from the structure's
    /// dominant features.
    pub fn synthesize_material(&mut self)
        requires
            old(self).wf(),
        ensures
            final(self).wf(),
            *final(self) == (PhaseStructure {
                material_name: final(self).material_name,
                material_description: final(self).material_description,
                ..*old(self)
            }),
            final(self).material_name@ == old(self).material_name_of(),
            final(self).material_description@ == "'"@ + old(self).position_a@ + "' and '"@ + old(
                self,
            ).position_b@ + "': "@ + Self::material_phrase(old(self).material_name_of()),
    {
        let has_boundary = self.contested_territory < 300_000;
        let has_gradient = self.contested_territory > 300_000;
        let has_asymmetry = fabs(fsub(self.vent_a_territory, self.vent_b_territory)) > 300_000;
        let target = copied("Density Stratification");
        let mut has_strat = false;
        let mut k: usize = 0;
        while k < self.emergent_properties.len()
            invariant
                target@ == "Density Stratification"@,
                k <= self.emergent_properties@.len(),
                has_strat == exists|i: int|
                    0 <= i < k && (#[trigger] self.emergent_properties@[i]).name@ == "Density Stratification"@,
            decreases self.emergent_properties@.len() - k,
        {
            if self.emergent_properties[k].name == target {
                has_strat = true;
            }
            k = k + 1;
        }
        let name: &str = if has_boundary && has_strat {
            "Contextual Sovereignty"
        } else if has_gradient && !has_asymmetry {
            "Graduated Synthesis"
        } else if has_asymmetry && has_boundary {
            "Dominant Resolution"
        } else if has_gradient && has_strat {
            "Stratified Gradient"
        } else if self.contested_territory > 600_000 {
            "Persistent Tension"
        } else {
            "Emergent Equilibrium"
        };
        let phrase: &str = if has_boundary && has_strat {
            "the boundary is where the physics naturally separates concerns"
        } else if has_gradient && !has_asymmetry {
            "both properties blend proportionally across a gradient zone"
        } else if has_asymmetry && has_boundary {
            "one position structurally dominates: it is what survives the collision dynamics"
        } else if has_gradient && has_strat {
            "behavior differs by depth, and the gradient between the levels is the actual policy"
        } else if self.contested_territory > 600_000 {
            "the contested zone never resolves: the oscillation itself is the stable state"
        } else {
            "an equilibrium forms at the collision boundary"
        };
        let mut description = copied("'");
        description.append(self.position_a.as_str());
        description.append("' and '");
        description.append(self.position_b.as_str());
        description.append("': ");
        description.append(phrase);
        self.material_name = copied(name);
        self.material_description = description;
        proof {
            reveal_strlit("Contextual Sovereignty");
            reveal_strlit("Graduated Synthesis");
            reveal_strlit("Dominant Resolution");
            reveal_strlit("Stratified Gradient");
            reveal_strlit("Persistent Tension");
            reveal_strlit("Emergent Equilibrium");
            assert(has_boundary == (old(self).contested_territory < 300_000));
            assert(has_gradient == (old(self).contested_territory > 300_000));
            assert(has_asymmetry == (mag(
                old(self).vent_a_territory - old(self).vent_b_territory as int,
            ) > 300_000));
            assert(has_strat == old(self).has_stratification());
            assert(self.material_name@ == old(self).material_name_of());
            assert("Graduated Synthesis"@[0] != "Dominant Resolution"@[0]);
            assert("Graduated Synthesis"@[0] != "Stratified Gradient"@[0]);
            assert("Dominant Resolution"@[0] != "Stratified Gradient"@[0]);
            assert(Self::material_phrase(old(self).material_name_of()) == phrase@);
            assert(self.material_description@ =~= "'"@ + old(self).position_a@ + "' and '"@ + old(
                self,
            ).position_b@ + "': "@ + phrase@);
        }
    }
}

/// The kind of resolution a consensus experiment crystallized into.
#[derive(Clone, Copy, Debug, Hash, PartialEq, Eq, Structural)]
pub enum ConsensusOreType {
    /// Both positions hold simultaneously, depending on context.
    Synthesis,
    /// A novel third position emerges that transcends both.
    Transcendence,
    /// One position dissolves the other through superior coherence.
    Dissolution,
    /// The contradiction itself becomes the stable insight.
    Paradox,
    /// Both positions cancel out, revealing a deeper structure.
    Nullification,
}

impl ConsensusOreType {
    /// The lowercase name of this resolution kind.
    pub fn as_str(&self) -> (r: &'static str)
        ensures
            *self is Synthesis ==> r@ == "synthesis"@,
            *self is Transcendence ==> r@ == "transcendence"@,
            *self is Dissolution ==> r@ == "dissolution"@,
            *self is Paradox ==> r@ == "paradox"@,
            *self is Nullification ==> r@ == "nullification"@,
    {
        match self {
            ConsensusOreType::Synthesis => "synthesis",
            ConsensusOreType::Transcendence => "transcendence",
            ConsensusOreType::Dissolution => "dissolution",
            ConsensusOreType::Paradox => "paradox",
            ConsensusOreType::Nullification => "nullification",
        }
    }
}

/// Crystallized consensus: the stable insight extracted from two
/// contradictory inputs.
pub struct ConsensusOre {
    pub id: u128,
    /// Descriptive name.
    pub name: String,
    /// What kind of resolution occurred.
    pub ore_type: ConsensusOreType,
    /// The first contradictory position.
    pub vent_a: String,
    /// The second contradictory position.
    pub vent_b: String,
    /// The certainty metric, in `(0, SCALE]`.
    pub certainty: i64,
    /// Total accumulated jitter during crystallization.
    pub accumulated_jitter: i64,
    /// How many ticks crystallization took.
    pub crystallization_time: u64,
    /// The emergent insight, if any.
    pub insight: Option<String>,
    /// Integration value for downstream processing.
    pub integration_value: i64,
    /// The extracted phase structure, if a phase transition occurred.
    pub phase_structure: Option<PhaseStructure>,
}

impl ConsensusOre {
    /// Is this a foundational truth (certainty above `0.8`)?
    pub fn is_foundational(&self) -> (r: bool)
        ensures
            r == (self.certainty > 800_000),
    {
        self.certainty > 800_000
    }

    /// Is this mostly noise (certainty below `0.2`)?
    pub fn is_noise(&self) -> (r: bool)
        ensures
            r == (self.certainty < 200_000),
    {
        self.certainty < 200_000
    }

    /// The quality classification of this ore, by certainty band.
    pub fn quality(&self) -> (r: &'static str)
        ensures
            self.certainty > 900_000 ==> r@ == "foundational_truth"@,
            700_000 < self.certainty <= 900_000 ==> r@ == "strong_insight"@,
            500_000 < self.certainty <= 700_000 ==> r@ == "tentative_insight"@,
            300_000 < self.certainty <= 500_000 ==> r@ == "weak_signal"@,
            self.certainty <= 300_000 ==> r@ == "noise"@,
    {
        if self.certainty > 900_000 {
            "foundational_truth"
        } else if self.certainty > 700_000 {
            "strong_insight"
        } else if self.certainty > 500_000 {
            "tentative_insight"
        } else if self.certainty > 300_000 {
            "weak_signal"
        } else {
            "noise"
        }
    }
}

/// One of the two contradictory force sources injected into the reactor.
pub struct ContradictoryVent {
    pub id: u128,
    /// The position this vent represents.
    pub position: String,
    /// Heat output: the conviction strength.
    pub heat_output: i64,
    /// Current thermal energy.
    pub energy: i64,
    /// Depth in the fluid where it injects.
    pub depth: i64,
    /// Radius of influence.
    pub radius: i64,
}

impl ContradictoryVent {
    /// The numeric fields are inside their documented bands.
    pub open spec fn wf(self) -> bool {
        &&& 0 <= self.heat_output <= MAG
        &&& 0 <= self.depth <= SCALE
        &&& 0 < self.radius <= SCALE
    }

    /// Record a contradictory vent; its energy starts at its heat output.
    pub fn new(position: String, heat_output: i64, depth: i64, radius: i64) -> (r:
        ContradictoryVent)
        requires
            0 <= heat_output <= MAG,
            0 <= depth <= SCALE,
            0 < radius <= SCALE,
        ensures
            r.position == position,
            r.heat_output == heat_output,
            r.energy == heat_output,
            r.depth == depth,
            r.radius == radius,
            r.wf(),
    {
        ContradictoryVent { id: fresh_id(), position, heat_output, energy: heat_output, depth, radius }
    }

    /// The thermal force this vent exerts at `depth`: zero outside its
    /// radius, otherwise its heat scaled by the square of proximity,
    /// pushing away from the vent center (positive pushes down).
    pub open spec fn spec_force_at(self, depth: int) -> int {
        let diff = depth - self.depth;
        let dist = mag(diff);
        if dist > self.radius {
            0
        } else {
            let proximity = fx_sub(SCALE as int, fx_div(dist, self.radius as int));
            let magnitude = fx_mul(self.heat_output as int, fx_mul(proximity, proximity));
            if diff > 0 { magnitude } else { -magnitude }
        }
    }

    /// Thermal force at a given depth.
    pub fn force_at(&self, depth: i64) -> (r: i64)
        requires
            self.wf(),
            0 <= depth <= SCALE,
        ensures
            r == self.spec_force_at(depth as int),
            fx_ok(r),
    {
        let diff = fsub(depth, self.depth);
        let dist = fabs(diff);
        if dist > self.radius {
            return 0;
        }
        let proximity = fsub(SCALE, fdiv(dist, self.radius));
        let magnitude = fmul(self.heat_output, fmul(proximity, proximity));
        if diff > 0 {
            magnitude
        } else {
            fneg(magnitude)
        }
    }
}

/// The jitter visible in a velocity history: the magnitude of the change
/// between the last two samples (zero with fewer than two samples).
pub open spec fn current_jitter_of(h: Seq<i64>) -> int {
    if h.len() < 2 {
        0
    } else {
        mag(fx_sub(h[h.len() - 1] as int, h[h.len() - 2] as int))
    }
}

/// The accumulated jitter integral of a velocity history: each consecutive
/// change, scaled by the tick duration of one sixtieth, summed saturating.
pub open spec fn jitter_integral_of(h: Seq<i64>) -> int
    decreases h.len(),
{
    if h.len() < 2 {
        0
    } else {
        fx_add(jitter_integral_of(h.drop_last()), div_tz(current_jitter_of(h), 60))
    }
}

/// What certainty a given accumulated jitter yields:
/// `SCALE / (SCALE + jitter)` in fixed point.
pub open spec fn certainty_of(accumulated_jitter: int) -> int {
    fx_div(SCALE as int, fx_add(SCALE as int, accumulated_jitter))
}

/// Snapshots ordered by depth.
pub open spec fn sorted_snapshots(s: Seq<(u128, i64, i64)>) -> bool {
    forall|i: int, j: int| 0 <= i <= j < s.len() ==> (#[trigger] s[i]).1 <= (#[trigger] s[j]).1
}

/// The left cell boundary in a sorted snapshot sequence: zero for the
/// first probe, the midpoint to the previous probe otherwise.
pub open spec fn spec_left_of(s: Seq<(u128, i64, i64)>, i: int) -> int {
    if i == 0 {
        0
    } else {
        (s[i - 1].1 + s[i].1) as int / 2
    }
}

/// The right cell boundary in a sorted snapshot sequence: the floor for
/// the last probe, the midpoint to the next probe otherwise.
pub open spec fn spec_right_of(s: Seq<(u128, i64, i64)>, i: int) -> int {
    if i == s.len() - 1 {
        SCALE as int
    } else {
        (s[i].1 + s[i + 1].1) as int / 2
    }
}

/// The left boundary of cell `i`, from the cell centers alone.
pub open spec fn spec_left_bound(cells: Seq<VoronoiCell>, i: int) -> int {
    if i == 0 {
        0
    } else {
        (cells[i - 1].center + cells[i].center) as int / 2
    }
}

/// The right boundary of cell `i`, from the cell centers alone.
pub open spec fn spec_right_bound(cells: Seq<VoronoiCell>, i: int) -> int {
    if i == cells.len() - 1 {
        SCALE as int
    } else {
        (cells[i].center + cells[i + 1].center) as int / 2
    }
}

/// How a cell center is classified against the two vent depths and their
/// midpoint: escaped outside the vents' outer margins, otherwise by which
/// side of the collision center it rests on.
pub open spec fn spec_cell_dominance(depth: int, vent_a: int, vent_b: int, center: int)
    -> VentDominance {
    if depth < vent_a - 100_000 {
        VentDominance::Escaped
    } else if depth < center - 50_000 {
        VentDominance::VentA
    } else if depth > vent_b + 100_000 {
        VentDominance::Escaped
    } else if depth > center + 50_000 {
        VentDominance::VentB
    } else {
        VentDominance::Contested
    }
}

/// The total width of the cells of one class.
pub open spec fn class_width_sum(cells: Seq<VoronoiCell>, d: VentDominance) -> int
    decreases cells.len(),
{
    if cells.len() == 0 {
        0
    } else {
        class_width_sum(cells.drop_last(), d) + if cells.last().dominance == d {
            cells.last().width as int
        } else {
            0int
        }
    }
}

/// The summed centers of the cells of one class.
pub open spec fn class_center_sum(cells: Seq<VoronoiCell>, d: VentDominance) -> int
    decreases cells.len(),
{
    if cells.len() == 0 {
        0
    } else {
        class_center_sum(cells.drop_last(), d) + if cells.last().dominance == d {
            cells.last().center as int
        } else {
            0int
        }
    }
}

/// How many cells fall in one class.
pub open spec fn class_count(cells: Seq<VoronoiCell>, d: VentDominance) -> int
    decreases cells.len(),
{
    if cells.len() == 0 {
        0
    } else {
        class_count(cells.drop_last(), d) + if cells.last().dominance == d { 1int } else { 0int }
    }
}

/// The total width of all cells.
pub open spec fn width_sum(cells: Seq<VoronoiCell>) -> int
    decreases cells.len(),
{
    if cells.len() == 0 {
        0
    } else {
        width_sum(cells.drop_last()) + cells.last().width as int
    }
}

/// The cells partition the whole depth band: the first starts at the
/// surface, the last ends at the floor, neighbors share a boundary, and
/// each width is the boundary difference.
pub open spec fn cells_chained(cells: Seq<VoronoiCell>) -> bool {
    &&& cells.len() > 0
    &&& cells[0].left_bound == 0
    &&& cells[cells.len() - 1].right_bound == SCALE
    &&& forall|i: int| 0 <= i < cells.len() - 1
        ==> (#[trigger] cells[i]).right_bound == cells[i + 1].left_bound
    &&& forall|i: int| 0 <= i < cells.len()
        ==> (#[trigger] cells[i]).width == cells[i].right_bound - cells[i].left_bound
}

/// The widths of the first `k` cells of a chained tessellation telescope
/// to the span between the first left boundary and the `k`-th right
/// boundary.
#[verifier::rlimit(100)]
proof fn lemma_width_prefix(cells: Seq<VoronoiCell>, k: int)
    requires
        cells_chained(cells),
        1 <= k <= cells.len(),
    ensures
        width_sum(cells.take(k)) == cells[k - 1].right_bound - cells[0].left_bound,
    decreases k,
{
    if k == 1 {
        assert(cells.take(1).drop_last() =~= cells.take(0));
        assert(cells.take(1).last() == cells[0]);
        assert(cells[0].width == cells[0].right_bound - cells[0].left_bound);
        assert(width_sum(cells.take(1)) == width_sum(cells.take(0)) + cells[0].width as int);
    } else {
        lemma_width_prefix(cells, k - 1);
        assert(cells.take(k).drop_last() =~= cells.take(k - 1));
        assert(cells.take(k).last() == cells[k - 1]);
        assert(cells[k - 1].width == cells[k - 1].right_bound - cells[k - 1].left_bound);
        assert(cells[k - 2].right_bound == cells[k - 1].left_bound);
        assert(width_sum(cells.take(k)) == width_sum(cells.take(k - 1)) + cells[k - 1].width as int);
    }
}

/// The widths of a chained tessellation telescope to the whole band.
pub proof fn lemma_cells_cover(cells: Seq<VoronoiCell>)
    requires
        cells_chained(cells),
    ensures
        width_sum(cells) == SCALE,
{
    lemma_width_prefix(cells, cells.len() as int);
    assert(cells.take(cells.len() as int) =~= cells);
}

/// A share of a positive total, normalized to fixed point, stays within
/// the unit band and is exactly the truncated quotient.
pub proof fn lemma_normalized_share(x: int, t: int)
    requires
        0 <= x <= t,
        1 <= t <= MAG,
    ensures
        fx_div(x, t) == x * SCALE / t,
        0 <= fx_div(x, t) <= SCALE,
{
    assert(0 <= x * SCALE <= t * SCALE) by (nonlinear_arith)
        requires 0 <= x <= t, 0 < SCALE as int;
    assert(x * SCALE / t <= t * SCALE / t) by (nonlinear_arith)
        requires 0 <= x * SCALE <= t * SCALE, 1 <= t;
    assert(t * SCALE / t == SCALE) by (nonlinear_arith)
        requires 1 <= t;
    assert(0 <= x * SCALE / t) by (nonlinear_arith)
        requires 0 <= x * SCALE, 1 <= t;
}

/// Normalized territory shares of a positive total sum to the whole unit
/// band within a truncation loss of less than three smallest steps.
pub proof fn lemma_normalized_territories_sum(a: int, b: int, c: int)
    requires
        0 <= a,
        0 <= b,
        0 <= c,
        1 <= a + b + c <= MAG,
    ensures
        SCALE - 3 < fx_div(a, a + b + c) + fx_div(b, a + b + c) + fx_div(c, a + b + c) <= SCALE,
{
    let t = a + b + c;
    lemma_normalized_share(a, t);
    lemma_normalized_share(b, t);
    lemma_normalized_share(c, t);
    let qa = a * SCALE / t;
    let qb = b * SCALE / t;
    let qc = c * SCALE / t;
    lemma_fundamental_div_mod(a * SCALE, t);
    lemma_fundamental_div_mod(b * SCALE, t);
    lemma_fundamental_div_mod(c * SCALE, t);
    let ra = (a * SCALE) % t;
    let rb = (b * SCALE) % t;
    let rc = (c * SCALE) % t;
    assert(0 <= ra < t && 0 <= rb < t && 0 <= rc < t) by {
        lemma_mod_bound(a * SCALE, t);
        lemma_mod_bound(b * SCALE, t);
        lemma_mod_bound(c * SCALE, t);
    }
    assert((a + b + c) * SCALE == t * (qa + qb + qc) + (ra + rb + rc)) by (nonlinear_arith)
        requires
            a * SCALE == t * qa + ra,
            b * SCALE == t * qb + rb,
            c * SCALE == t * qc + rc,
            (a + b + c) * SCALE == a * SCALE + b * SCALE + c * SCALE;
    assert((a + b + c) * SCALE == t * SCALE) by (nonlinear_arith)
        requires t == a + b + c;
    assert(qa + qb + qc <= SCALE && qa + qb + qc > SCALE - 3) by (nonlinear_arith)
        requires
            t * SCALE == t * (qa + qb + qc) + (ra + rb + rc),
            0 <= ra + rb + rc < 3 * t,
            1 <= t;
}

/// Sort snapshots by depth (selection of the least remaining depth), so
/// that the Voronoi tessellation can read neighbors off adjacency.
fn sort_snapshots(input: Vec<(u128, i64, i64)>) -> (r: Vec<(u128, i64, i64)>)
    requires
        input@.len() <= SCALE,
        forall|i: int| 0 <= i < input@.len() ==> {
            &&& 0 <= (#[trigger] input@[i]).1 <= SCALE
            &&& fx_ok(input@[i].2)
        },
    ensures
        r@.len() == input@.len(),
        sorted_snapshots(r@),
        r@.to_multiset() == input@.to_multiset(),
        forall|i: int| 0 <= i < r@.len() ==> {
            &&& 0 <= (#[trigger] r@[i]).1 <= SCALE
            &&& fx_ok(r@[i].2)
        },
{
    let mut rest = input;
    let mut out: Vec<(u128, i64, i64)> = Vec::new();
    proof {
        broadcast use vstd::seq_lib::group_to_multiset_ensures;

        assert(out@.to_multiset().add(rest@.to_multiset()) =~= input@.to_multiset());
    }
    while rest.len() > 0
        invariant
            out@.len() + rest@.len() == input@.len(),
            input@.len() <= SCALE,
            out@.to_multiset().add(rest@.to_multiset()) == input@.to_multiset(),
            sorted_snapshots(out@),
            forall|i: int, j: int| 0 <= i < out@.len() && 0 <= j < rest@.len()
                ==> (#[trigger] out@[i]).1 <= (#[trigger] rest@[j]).1,
            forall|i: int| 0 <= i < out@.len() ==> {
                &&& 0 <= (#[trigger] out@[i]).1 <= SCALE
                &&& fx_ok(out@[i].2)
            },
            forall|i: int| 0 <= i < rest@.len() ==> {
                &&& 0 <= (#[trigger] rest@[i]).1 <= SCALE
                &&& fx_ok(rest@[i].2)
            },
        decreases rest@.len(),
    {
        let mut m: usize = 0;
        let mut k: usize = 1;
        while k < rest.len()
            invariant
                rest@.len() > 0,
                m < k <= rest@.len(),
                forall|j: int| 0 <= j < k ==> (#[trigger] rest@[j]).1 >= rest@[m as int].1,
            decreases rest@.len() - k,
        {
            if rest[k].1 < rest[m].1 {
                m = k;
            }
            k = k + 1;
        }
        let ghost rest_before = rest@;
        let e = rest.remove(m);
        out.push(e);
        proof {
            broadcast use vstd::seq_lib::group_to_multiset_ensures;

            assert(rest@ == rest_before.remove(m as int));
            assert(out@.to_multiset().add(rest@.to_multiset()) =~= input@.to_multiset());
            assert forall|i: int, j: int| 0 <= i < out@.len() && 0 <= j < rest@.len() implies (
            #[trigger] out@[i]).1 <= (#[trigger] rest@[j]).1 by {
                if j < m as int {
                    assert(rest@[j] == rest_before[j]);
                } else {
                    assert(rest@[j] == rest_before[j + 1]);
                }
            }
        }
    }
    out
}

/// Build the Voronoi cells and frozen probes from a depth-sorted snapshot
/// sequence: each cell is bounded by midpoints to its neighbors (the ends
/// open to the surface and the floor) and classified against the vents;
/// each probe records its frozen state, neighbor distance and the local
/// density that distance implies.
fn build_tessellation(
    sorted: &Vec<(u128, i64, i64)>,
    vent_a_depth: i64,
    vent_b_depth: i64,
    collision_center: i64,
) -> (r: (Vec<VoronoiCell>, Vec<FrozenProbe>))
    requires
        sorted@.len() <= SCALE,
        sorted_snapshots(sorted@),
        forall|j: int| 0 <= j < sorted@.len() ==> {
            &&& 0 <= (#[trigger] sorted@[j]).1 <= SCALE
            &&& fx_ok(sorted@[j].2)
        },
        0 <= vent_a_depth <= SCALE,
        0 <= vent_b_depth <= SCALE,
        collision_center == (vent_a_depth + vent_b_depth) as int / 2,
    ensures
        r.0@.len() == sorted@.len(),
        r.1@.len() == sorted@.len(),
        forall|j: int| 0 <= j < sorted@.len() ==> {
            &&& (#[trigger] r.0@[j]).owner_id == sorted@[j].0
            &&& r.0@[j].center == sorted@[j].1
            &&& r.0@[j].left_bound == spec_left_of(sorted@, j)
            &&& r.0@[j].right_bound == spec_right_of(sorted@, j)
            &&& r.0@[j].width == r.0@[j].right_bound - r.0@[j].left_bound
            &&& r.0@[j].dominance == spec_cell_dominance(
                sorted@[j].1 as int,
                vent_a_depth as int,
                vent_b_depth as int,
                collision_center as int,
            )
            &&& 0 <= r.0@[j].left_bound <= r.0@[j].center <= r.0@[j].right_bound <= SCALE
        },
        forall|j: int| 0 <= j < sorted@.len() ==> {
            &&& (#[trigger] r.1@[j]).id == sorted@[j].0
            &&& r.1@[j].depth == sorted@[j].1
            &&& r.1@[j].frozen_velocity == sorted@[j].2
            &&& 0 <= r.1@[j].local_density <= MAG
        },
{
    let n = sorted.len();
    let mut cells: Vec<VoronoiCell> = Vec::new();
    let mut probes: Vec<FrozenProbe> = Vec::new();
    let mut i: usize = 0;
    while i < n
        invariant
            n == sorted@.len(),
            n <= SCALE,
            sorted_snapshots(sorted@),
            forall|j: int| 0 <= j < sorted@.len() ==> {
                &&& 0 <= (#[trigger] sorted@[j]).1 <= SCALE
                &&& fx_ok(sorted@[j].2)
            },
            0 <= vent_a_depth <= SCALE,
            0 <= vent_b_depth <= SCALE,
            collision_center == (vent_a_depth + vent_b_depth) as int / 2,
            i <= n,
            cells@.len() == i,
            probes@.len() == i,
            forall|j: int| 0 <= j < i ==> {
                &&& (#[trigger] cells@[j]).owner_id == sorted@[j].0
                &&& cells@[j].center == sorted@[j].1
                &&& cells@[j].left_bound == spec_left_of(sorted@, j)
                &&& cells@[j].right_bound == spec_right_of(sorted@, j)
                &&& cells@[j].width == cells@[j].right_bound - cells@[j].left_bound
                &&& cells@[j].dominance == spec_cell_dominance(
                    sorted@[j].1 as int,
                    vent_a_depth as int,
                    vent_b_depth as int,
                    collision_center as int,
                )
                &&& 0 <= cells@[j].left_bound <= cells@[j].center <= cells@[j].right_bound <= SCALE
            },
            forall|j: int| 0 <= j < i ==> {
                &&& (#[trigger] probes@[j]).id == sorted@[j].0
                &&& probes@[j].depth == sorted@[j].1
                &&& probes@[j].frozen_velocity == sorted@[j].2
                &&& 0 <= probes@[j].local_density <= MAG
            },
        decreases n - i,
    {
        let entry = sorted[i];
        let depth = entry.1;
        let left = if i == 0 {
            0
        } else {
            let prev = sorted[i - 1].1;
            let h = fhalf(fadd(prev, depth));
            proof {
                assert(prev <= depth);
                assert(prev <= (prev + depth) as int / 2 <= depth) by (nonlinear_arith)
                    requires 0 <= prev <= depth;
            }
            h
        };
        let right = if i == n - 1 {
            SCALE
        } else {
            let next = sorted[i + 1].1;
            let h = fhalf(fadd(depth, next));
            proof {
                assert(depth <= next);
                assert(depth <= (depth + next) as int / 2 <= next) by (nonlinear_arith)
                    requires 0 <= depth <= next;
            }
            h
        };
        let dominance = if depth < vent_a_depth - 100_000 {
            VentDominance::Escaped
        } else if depth < collision_center - 50_000 {
            VentDominance::VentA
        } else if depth > vent_b_depth + 100_000 {
            VentDominance::Escaped
        } else if depth > collision_center + 50_000 {
            VentDominance::VentB
        } else {
            VentDominance::Contested
        };
        cells.push(
            VoronoiCell {
                owner_id: entry.0,
                center: depth,
                left_bound: left,
                right_bound: right,
                width: right - left,
                dominance,
            },
        );
        let left_dist = if i > 0 {
            fsub(depth, sorted[i - 1].1)
        } else {
            MAG
        };
        let right_dist = if i + 1 < n {
            fsub(sorted[i + 1].1, depth)
        } else {
            MAG
        };
        let nearest_dist = if n > 1 {
            fmin(left_dist, right_dist)
        } else {
            SCALE
        };
        let local_density = if nearest_dist > 0 {
            let capped = fmin(nearest_dist, MAG);
            let d = fdiv(SCALE, capped);
            proof {
                assert((SCALE as int) * (SCALE as int) / (capped as int) >= 0)
                    by (nonlinear_arith)
                    requires 1 <= capped as int;
            }
            d
        } else {
            10_000_000
        };
        let probe_dominance = if depth < collision_center - 50_000 {
            VentDominance::VentA
        } else if depth > collision_center + 50_000 {
            VentDominance::VentB
        } else {
            VentDominance::Contested
        };
        probes.push(
            FrozenProbe {
                id: entry.0,
                depth,
                frozen_velocity: entry.2,
                dominant_vent: probe_dominance,
                nearest_neighbor_dist: nearest_dist,
                local_density,
            },
        );
        i = i + 1;
    }
    (cells, probes)
}

/// Total the class widths, the contested centers and the contested count
/// over a cell sequence.
fn class_totals(cells: &Vec<VoronoiCell>) -> (r: (i64, i64, i64, i64, i64))
    requires
        cells@.len() <= SCALE,
        forall|j: int| 0 <= j < cells@.len() ==> {
            &&& 0 <= (#[trigger] cells@[j]).width <= SCALE
            &&& 0 <= cells@[j].center <= SCALE
        },
    ensures
        r.0 == class_width_sum(cells@, VentDominance::VentA),
        r.1 == class_width_sum(cells@, VentDominance::VentB),
        r.2 == class_width_sum(cells@, VentDominance::Contested),
        r.3 == class_center_sum(cells@, VentDominance::Contested),
        r.4 == class_count(cells@, VentDominance::Contested),
        0 <= r.0 && 0 <= r.1 && 0 <= r.2,
        r.0 + r.1 + r.2 <= MAG,
        0 <= r.4 <= cells@.len(),
        0 <= r.3 <= r.4 * SCALE,
{
    let mut territory_a: i64 = 0;
    let mut territory_b: i64 = 0;
    let mut contested: i64 = 0;
    let mut contested_center_total: i64 = 0;
    let mut contested_count: i64 = 0;
    let mut k2: usize = 0;
    while k2 < cells.len()
        invariant
            cells@.len() <= SCALE,
            k2 <= cells@.len(),
            forall|j: int| 0 <= j < cells@.len() ==> {
                &&& 0 <= (#[trigger] cells@[j]).width <= SCALE
                &&& 0 <= cells@[j].center <= SCALE
            },
            territory_a == class_width_sum(cells@.take(k2 as int), VentDominance::VentA),
            territory_b == class_width_sum(cells@.take(k2 as int), VentDominance::VentB),
            contested == class_width_sum(cells@.take(k2 as int), VentDominance::Contested),
            contested_center_total == class_center_sum(
                cells@.take(k2 as int),
                VentDominance::Contested,
            ),
            contested_count == class_count(cells@.take(k2 as int), VentDominance::Contested),
            0 <= territory_a && 0 <= territory_b && 0 <= contested,
            territory_a + territory_b + contested <= k2 * SCALE,
            0 <= contested_count <= k2,
            0 <= contested_center_total <= contested_count * SCALE,
        decreases cells@.len() - k2,
    {
        proof {
            assert(cells@.take(k2 + 1 as int).drop_last() =~= cells@.take(k2 as int));
            assert((k2 + 1) * SCALE == k2 * SCALE + SCALE) by (nonlinear_arith);
            assert(k2 * SCALE <= (SCALE as int) * (SCALE as int)) by (nonlinear_arith)
                requires 0 <= k2 <= SCALE as int;
            assert((contested_count + 1) * SCALE == contested_count * SCALE + SCALE)
                by (nonlinear_arith);
            assert(0 <= contested_count * SCALE) by (nonlinear_arith)
                requires 0 <= contested_count;
        }
        let c = &cells[k2];
        match c.dominance {
            VentDominance::VentA => { territory_a = territory_a + c.width; },
            VentDominance::VentB => { territory_b = territory_b + c.width; },
            VentDominance::Contested => {
                contested = contested + c.width;
                contested_center_total = contested_center_total + c.center;
                contested_count = contested_count + 1;
            },
            VentDominance::Escaped => {},
        }
        k2 = k2 + 1;
    }
    proof {
        assert(cells@.take(cells@.len() as int) =~= cells@);
        assert(cells@.len() * SCALE <= (SCALE as int) * (SCALE as int)) by (nonlinear_arith)
            requires 0 <= cells@.len() <= SCALE as int;
    }
    (territory_a, territory_b, contested, contested_center_total, contested_count)
}

/// The index of the first snapshot carrying `id`, or `-1` if none does.
pub open spec fn snap_index(s: Seq<(u128, i64, i64)>, id: u128) -> int
    decreases s.len(),
{
    if s.len() == 0 {
        -1
    } else if s[0].0 == id {
        0
    } else {
        let t = snap_index(s.skip(1), id);
        if t < 0 { -1 } else { t + 1 }
    }
}

/// `snap_index` finds exactly the first matching snapshot.
pub proof fn lemma_snap_index(s: Seq<(u128, i64, i64)>, id: u128)
    ensures
        snap_index(s, id) >= 0 ==> {
            &&& snap_index(s, id) < s.len()
            &&& s[snap_index(s, id)].0 == id
            &&& forall|j: int| 0 <= j < snap_index(s, id) ==> (#[trigger] s[j]).0 != id
        },
        snap_index(s, id) < 0 ==> forall|j: int| 0 <= j < s.len() ==> (#[trigger] s[j]).0 != id,
    decreases s.len(),
{
    if s.len() > 0 && s[0].0 != id {
        let tail = s.skip(1);
        let t = snap_index(tail, id);
        lemma_snap_index(tail, id);
        if t >= 0 {
            assert(snap_index(s, id) == t + 1);
            assert(tail[t] == s[t + 1]);
            assert forall|j: int| 0 <= j < t + 1 implies (#[trigger] s[j]).0 != id by {
                if j > 0 {
                    assert(tail[j - 1] == s[j]);
                }
            }
        } else {
            assert forall|j: int| 0 <= j < s.len() implies (#[trigger] s[j]).0 != id by {
                if j > 0 {
                    assert(tail[j - 1] == s[j]);
                }
            }
        }
    }
}

/// A consensus experiment: the collision of two contradictory vents over a
/// probe field, tracked until crystallization.
pub struct ConsensusExperiment {
    pub id: u128,
    /// The first contradictory vent.
    pub vent_a: ContradictoryVent,
    /// The second contradictory vent.
    pub vent_b: ContradictoryVent,
    /// Probe concepts caught in the thermal collision.
    pub probe_ids: Vec<u128>,
    /// Accumulated jitter over the whole run; non-negative.
    pub accumulated_jitter: i64,
    /// Peak jitter observed; non-negative.
    pub peak_jitter: i64,
    /// Rolling window of mean-probe-velocity samples (at most 120).
    pub velocity_history: Vec<i64>,
    /// Tick when the experiment started.
    pub start_tick: u64,
    /// Has crystallization completed?
    pub crystallized: bool,
    /// Minimum ticks before crystallization may happen.
    pub min_crystallization_time: u64,
    /// Ticks after which crystallization is forced.
    pub max_crystallization_time: u64,
    /// Jitter level counted as stable.
    pub jitter_threshold: i64,
    /// Consecutive low-jitter ticks seen so far.
    pub stable_ticks: u32,
    /// Required consecutive stable ticks to crystallize.
    pub stability_requirement: u32,
    /// Jitter level that triggers the phase-transition freeze.
    pub phase_transition_threshold: i64,
    /// Has the phase transition occurred?
    pub phase_transitioned: bool,
    /// The extracted structure, once the transition occurred.
    pub phase_structure: Option<PhaseStructure>,
    /// Latest known probe states: identifier, depth, velocity.
    pub probe_snapshots: Vec<(u128, i64, i64)>,
}

impl ConsensusExperiment {
    /// The experiment's numbers are inside their documented bands.
    pub open spec fn wf(self) -> bool {
        &&& self.vent_a.wf()
        &&& self.vent_b.wf()
        &&& 0 <= self.accumulated_jitter <= MAG
        &&& 0 <= self.peak_jitter <= MAG
        &&& self.velocity_history@.len() <= 120
        &&& forall|i: int| 0 <= i < self.velocity_history@.len()
            ==> fx_ok(#[trigger] self.velocity_history@[i])
        &&& 0 <= self.jitter_threshold <= MAG
        &&& 0 <= self.phase_transition_threshold <= MAG
        &&& self.probe_snapshots@.len() <= SCALE
        &&& forall|i: int| 0 <= i < self.probe_snapshots@.len() ==> {
            &&& 0 <= (#[trigger] self.probe_snapshots@[i]).1 <= SCALE
            &&& fx_ok(self.probe_snapshots@[i].2)
        }
        &&& (self.phase_structure matches Some(ps) ==> ps.wf())
    }

    /// Set up an experiment: the two vents stand at depths `0.4` and `0.6`
    /// with radius `0.2`, crystallization may happen between 60 and 600
    /// ticks, and 30 consecutive ticks of jitter below `0.02` settle it.
    pub fn new(position_a: String, heat_a: i64, position_b: String, heat_b: i64) -> (r:
        ConsensusExperiment)
        requires
            0 <= heat_a <= MAG,
            0 <= heat_b <= MAG,
        ensures
            r.wf(),
            r.vent_a.position == position_a,
            r.vent_a.heat_output == heat_a,
            r.vent_a.depth == 400_000,
            r.vent_a.radius == 200_000,
            r.vent_b.position == position_b,
            r.vent_b.heat_output == heat_b,
            r.vent_b.depth == 600_000,
            r.vent_b.radius == 200_000,
            r.probe_ids@.len() == 0,
            r.accumulated_jitter == 0,
            r.peak_jitter == 0,
            r.velocity_history@.len() == 0,
            r.start_tick == 0,
            !r.crystallized,
            r.min_crystallization_time == 60,
            r.max_crystallization_time == 600,
            r.jitter_threshold == 20_000,
            r.stable_ticks == 0,
            r.stability_requirement == 30,
            r.phase_transition_threshold == 50_000,
            !r.phase_transitioned,
            r.phase_structure is None,
            r.probe_snapshots@.len() == 0,
    {
        let vent_a = ContradictoryVent::new(position_a, heat_a, 400_000, 200_000);
        let vent_b = ContradictoryVent::new(position_b, heat_b, 600_000, 200_000);
        ConsensusExperiment {
            id: fresh_id(),
            vent_a,
            vent_b,
            probe_ids: Vec::new(),
            accumulated_jitter: 0,
            peak_jitter: 0,
            velocity_history: Vec::new(),
            start_tick: 0,
            crystallized: false,
            min_crystallization_time: 60,
            max_crystallization_time: 600,
            jitter_threshold: 20_000,
            stable_ticks: 0,
            stability_requirement: 30,
            phase_transition_threshold: 50_000,
            phase_transitioned: false,
            phase_structure: None,
            probe_snapshots: Vec::new(),
        }
    }

    /// Record or refresh the snapshot of one probe: the first snapshot
    /// carrying the identifier is overwritten, or a new one is appended.
    pub fn record_probe_snapshot(&mut self, id: u128, depth: i64, velocity: i64)
        requires
            old(self).wf(),
            0 <= depth <= SCALE,
            fx_ok(velocity),
            old(self).probe_snapshots@.len() < SCALE,
        ensures
            final(self).wf(),
            final(self).probe_snapshots@ == if snap_index(old(self).probe_snapshots@, id) >= 0 {
                old(self).probe_snapshots@.update(
                    snap_index(old(self).probe_snapshots@, id),
                    (id, depth, velocity),
                )
            } else {
                old(self).probe_snapshots@.push((id, depth, velocity))
            },
            *final(self) == (ConsensusExperiment {
                probe_snapshots: final(self).probe_snapshots,
                ..*old(self)
            }),
    {
        proof {
            lemma_snap_index(old(self).probe_snapshots@, id);
        }
        let n = self.probe_snapshots.len();
        let mut k: usize = 0;
        while k < n
            invariant
                old(self).wf(),
                *self == *old(self),
                0 <= depth <= SCALE,
                fx_ok(velocity),
                n == self.probe_snapshots@.len(),
                k <= n,
                forall|j: int| 0 <= j < k ==> (#[trigger] self.probe_snapshots@[j]).0 != id,
            decreases n - k,
        {
            if self.probe_snapshots[k].0 == id {
                proof {
                    let s = old(self).probe_snapshots@;
                    lemma_snap_index(s, id);
                    let si = snap_index(s, id);
                    assert(s[k as int].0 == id);
                    if si < 0 {
                        assert(s[k as int].0 != id);
                    } else if si < k as int {
                        assert(s[si].0 == id);
                        assert(s[si].0 != id);
                    } else if si > k as int {
                        assert(s[k as int].0 != id);
                    }
                    assert(si == k as int);
                }
                self.probe_snapshots[k] = (id, depth, velocity);
                proof {
                    let s = old(self).probe_snapshots@;
                    assert(self.probe_snapshots@ =~= s.update(k as int, (id, depth, velocity)));
                    assert forall|i: int| 0 <= i < self.probe_snapshots@.len() implies {
                        &&& 0 <= (#[trigger] self.probe_snapshots@[i]).1 <= SCALE
                        &&& fx_ok(self.probe_snapshots@[i].2)
                    } by {
                        if i != k as int {
                            assert(self.probe_snapshots@[i] == old(self).probe_snapshots@[i]);
                        }
                    }
                }
                return ;
            }
            k = k + 1;
        }
        self.probe_snapshots.push((id, depth, velocity));
    }

    /// Should the phase transition fire now?  Only once, only after half
    /// the minimum crystallization time, only after real turbulence
    /// accumulated, and only when the jitter has dropped back below the
    /// transition threshold from a peak above `0.1`.
    pub open spec fn spec_should_phase_transition(self, current_tick: u64) -> bool {
        let elapsed = if current_tick >= self.start_tick {
            current_tick - self.start_tick
        } else {
            0
        };
        &&& !self.phase_transitioned
        &&& elapsed >= self.min_crystallization_time as int / 2
        &&& self.accumulated_jitter >= 100_000
        &&& current_jitter_of(self.velocity_history@) < self.phase_transition_threshold
        &&& self.peak_jitter > 100_000
    }

    /// Check whether the phase transition should occur at this tick.
    pub fn should_phase_transition(&self, current_tick: u64) -> (r: bool)
        requires
            self.wf(),
        ensures
            r == self.spec_should_phase_transition(current_tick),
    {
        if self.phase_transitioned {
            return false;
        }
        let elapsed = if current_tick >= self.start_tick {
            current_tick - self.start_tick
        } else {
            0
        };
        if elapsed < self.min_crystallization_time / 2 {
            return false;
        }
        if self.accumulated_jitter < 100_000 {
            return false;
        }
        let current = self.current_jitter();
        current < self.phase_transition_threshold && self.peak_jitter > 100_000
    }

    /// Record one mean-velocity sample, keeping only the latest 120.
    pub fn record_velocity(&mut self, avg_velocity: i64)
        requires
            old(self).wf(),
            fx_ok(avg_velocity),
        ensures
            final(self).wf(),
            final(self).velocity_history@ == if old(self).velocity_history@.len() < 120 {
                old(self).velocity_history@.push(avg_velocity)
            } else {
                old(self).velocity_history@.push(avg_velocity).subrange(
                    1,
                    old(self).velocity_history@.len() as int + 1,
                )
            },
            *final(self) == (ConsensusExperiment {
                velocity_history: final(self).velocity_history,
                ..*old(self)
            }),
    {
        self.velocity_history.push(avg_velocity);
        if self.velocity_history.len() > 120 {
            let _dropped = self.velocity_history.remove(0);
            proof {
                assert(self.velocity_history@ =~= old(self).velocity_history@.push(
                    avg_velocity,
                ).subrange(1, old(self).velocity_history@.len() as int + 1));
            }
        }
    }

    /// The current jitter: the change between the last two samples.
    pub fn current_jitter(&self) -> (r: i64)
        requires
            self.wf(),
        ensures
            r == current_jitter_of(self.velocity_history@),
            0 <= r <= MAG,
    {
        let n = self.velocity_history.len();
        if n < 2 {
            return 0;
        }
        fabs(fsub(self.velocity_history[n - 1], self.velocity_history[n - 2]))
    }

    /// The total jitter integral over the recorded window.
    pub fn jitter_integral(&self) -> (r: i64)
        requires
            self.wf(),
        ensures
            r == jitter_integral_of(self.velocity_history@),
            0 <= r <= MAG,
    {
        let h = &self.velocity_history;
        if h.len() < 2 {
            return 0;
        }
        let mut acc: i64 = 0;
        let mut i: usize = 1;
        while i < h.len()
            invariant
                self.wf(),
                h == &self.velocity_history,
                1 <= i <= h@.len(),
                acc == jitter_integral_of(h@.take(i as int)),
                0 <= acc <= MAG,
            decreases h@.len() - i,
        {
            proof {
                assert(h@.take(i + 1 as int).drop_last() =~= h@.take(i as int));
            }
            let step = fdivi(fabs(fsub(h[i], h[i - 1])), 60);
            acc = fadd(acc, step);
            i = i + 1;
        }
        proof {
            assert(h@.take(h@.len() as int) =~= h@);
        }
        acc
    }

    /// The certainty this experiment has earned so far.
    pub fn certainty(&self) -> (r: i64)
        requires
            self.wf(),
        ensures
            r == certainty_of(self.accumulated_jitter as int),
            1 <= r <= SCALE,
    {
        let r = fdiv(SCALE, fadd(SCALE, self.accumulated_jitter));
        proof {
            lemma_certainty_range(self.accumulated_jitter as int);
        }
        r
    }

    /// The kind of ore this experiment's dynamics crystallize into: a
    /// decision table over certainty, the peak-to-accumulated jitter
    /// ratio, and the heat imbalance between the two vents.
    pub open spec fn spec_ore_type(self) -> ConsensusOreType {
        let c = certainty_of(self.accumulated_jitter as int);
        let jr = if self.accumulated_jitter > 0 {
            fx_div(self.peak_jitter as int, self.accumulated_jitter as int)
        } else {
            0
        };
        let hr = fx_div(
            self.vent_a.heat_output as int,
            if self.vent_b.heat_output >= 1_000 { self.vent_b.heat_output as int } else { 1_000 },
        );
        let imb = mag(fx_sub(hr, SCALE as int));
        if c > 900_000 && jr < 100_000 {
            ConsensusOreType::Synthesis
        } else if c > 700_000 && imb < 300_000 {
            ConsensusOreType::Transcendence
        } else if c > 500_000 && imb > 500_000 {
            ConsensusOreType::Dissolution
        } else if c < 300_000 && self.peak_jitter > 500_000 {
            ConsensusOreType::Nullification
        } else {
            ConsensusOreType::Paradox
        }
    }

    /// Classify the crystallization pattern.
    pub fn determine_ore_type(&self) -> (r: ConsensusOreType)
        requires
            self.wf(),
        ensures
            r == self.spec_ore_type(),
    {
        let certainty = self.certainty();
        let jitter_ratio = if self.accumulated_jitter > 0 {
            fdiv(self.peak_jitter, self.accumulated_jitter)
        } else {
            0
        };
        let heat_ratio = fdiv(self.vent_a.heat_output, fmax(self.vent_b.heat_output, 1_000));
        let heat_imbalance = fabs(fsub(heat_ratio, SCALE));
        if certainty > 900_000 && jitter_ratio < 100_000 {
            ConsensusOreType::Synthesis
        } else if certainty > 700_000 && heat_imbalance < 300_000 {
            ConsensusOreType::Transcendence
        } else if certainty > 500_000 && heat_imbalance > 500_000 {
            ConsensusOreType::Dissolution
        } else if certainty < 300_000 && self.peak_jitter > 500_000 {
            ConsensusOreType::Nullification
        } else {
            ConsensusOreType::Paradox
        }
    }

    /// The insight sentence generated for each resolution kind.
    pub open spec fn spec_insight(self, ore_type: ConsensusOreType) -> Seq<char> {
        let a = self.vent_a.position@;
        let b = self.vent_b.position@;
        if ore_type is Synthesis {
            "both '"@ + a + "' and '"@ + b + "' hold: context determines which applies"@
        } else if ore_type is Transcendence {
            "beyond '"@ + a + "' and '"@ + b + "': a third way emerges from their collision"@
        } else if ore_type is Dissolution {
            "'"@ + (if self.vent_a.heat_output > self.vent_b.heat_output { a } else { b })
                + "' dissolves opposition through superior coherence"@
        } else if ore_type is Paradox {
            "the tension between '"@ + a + "' and '"@ + b + "' is itself the insight"@
        } else {
            "'"@ + a + "' and '"@ + b + "' reveal a false dichotomy: the question dissolves"@
        }
    }

    /// Generate the insight sentence for a resolution kind.
    pub fn generate_insight(&self, ore_type: ConsensusOreType) -> (r: String)
        ensures
            r@ == self.spec_insight(ore_type),
    {
        let a = self.vent_a.position.as_str();
        let b = self.vent_b.position.as_str();
        match ore_type {
            ConsensusOreType::Synthesis => {
                let mut s = copied("both '");
                s.append(a);
                s.append("' and '");
                s.append(b);
                s.append("' hold: context determines which applies");
                proof {
                    assert(s@ =~= self.spec_insight(ore_type));
                }
                s
            },
            ConsensusOreType::Transcendence => {
                let mut s = copied("beyond '");
                s.append(a);
                s.append("' and '");
                s.append(b);
                s.append("': a third way emerges from their collision");
                proof {
                    assert(s@ =~= self.spec_insight(ore_type));
                }
                s
            },
            ConsensusOreType::Dissolution => {
                let winner = if self.vent_a.heat_output > self.vent_b.heat_output { a } else { b };
                let mut s = copied("'");
                s.append(winner);
                s.append("' dissolves opposition through superior coherence");
                proof {
                    assert(s@ =~= self.spec_insight(ore_type));
                }
                s
            },
            ConsensusOreType::Paradox => {
                let mut s = copied("the tension between '");
                s.append(a);
                s.append("' and '");
                s.append(b);
                s.append("' is itself the insight");
                proof {
                    assert(s@ =~= self.spec_insight(ore_type));
                }
                s
            },
            ConsensusOreType::Nullification => {
                let mut s = copied("'");
                s.append(a);
                s.append("' and '");
                s.append(b);
                s.append("' reveal a false dichotomy: the question dissolves");
                proof {
                    assert(s@ =~= self.spec_insight(ore_type));
                }
                s
            },
        }
    }

    /// The ticks elapsed since the experiment started (zero if the clock
    /// reads earlier than the start).
    pub open spec fn spec_elapsed(self, current_tick: u64) -> int {
        if current_tick >= self.start_tick {
            current_tick - self.start_tick
        } else {
            0
        }
    }

    /// The stable-tick counter after one crystallization check in the
    /// open window: incremented under the jitter threshold, reset above.
    pub open spec fn spec_next_stable(self) -> int {
        if current_jitter_of(self.velocity_history@) < self.jitter_threshold {
            if self.stable_ticks < u32::MAX {
                self.stable_ticks + 1
            } else {
                self.stable_ticks as int
            }
        } else {
            0
        }
    }

    /// Does one crystallization check at `current_tick` succeed?  Never
    /// before the minimum time, always at the maximum, and otherwise after
    /// enough consecutive stable ticks.
    pub open spec fn spec_check_result(self, current_tick: u64) -> bool {
        let elapsed = self.spec_elapsed(current_tick);
        if elapsed < self.min_crystallization_time {
            false
        } else if elapsed >= self.max_crystallization_time {
            true
        } else {
            self.spec_next_stable() >= self.stability_requirement
        }
    }

    /// The experiment state after one crystallization check.
    pub open spec fn spec_check_state(self, current_tick: u64) -> ConsensusExperiment {
        let elapsed = self.spec_elapsed(current_tick);
        if elapsed < self.min_crystallization_time {
            self
        } else if elapsed >= self.max_crystallization_time {
            ConsensusExperiment { crystallized: true, ..self }
        } else {
            ConsensusExperiment {
                stable_ticks: self.spec_next_stable() as u32,
                crystallized: self.crystallized || self.spec_next_stable()
                    >= self.stability_requirement,
                ..self
            }
        }
    }

    /// Check whether the experiment is ready to crystallize.
    pub fn check_crystallization(&mut self, current_tick: u64) -> (r: bool)
        requires
            old(self).wf(),
        ensures
            final(self).wf(),
            r == old(self).spec_check_result(current_tick),
            *final(self) == old(self).spec_check_state(current_tick),
    {
        let elapsed = if current_tick >= self.start_tick {
            current_tick - self.start_tick
        } else {
            0
        };
        if elapsed < self.min_crystallization_time {
            return false;
        }
        if elapsed >= self.max_crystallization_time {
            self.crystallized = true;
            return true;
        }
        let current_jitter = self.current_jitter();
        if current_jitter < self.jitter_threshold {
            if self.stable_ticks < u32::MAX {
                self.stable_ticks = self.stable_ticks + 1;
            }
        } else {
            self.stable_ticks = 0;
        }
        if self.stable_ticks >= self.stability_requirement {
            self.crystallized = true;
            return true;
        }
        false
    }

    /// The net force and collision intensity of the two vents at a depth.
    pub fn thermal_collision_at(&self, depth: i64) -> (r: (i64, i64))
        requires
            self.wf(),
            0 <= depth <= SCALE,
        ensures
            r.0 == fx_add(
                self.vent_a.spec_force_at(depth as int),
                self.vent_b.spec_force_at(depth as int),
            ),
            r.1 == fx_mul(
                mag(self.vent_a.spec_force_at(depth as int)),
                mag(self.vent_b.spec_force_at(depth as int)),
            ),
    {
        let force_a = self.vent_a.force_at(depth);
        let force_b = self.vent_b.force_at(depth);
        let net_force = fadd(force_a, force_b);
        let collision = fmul(fabs(force_a), fabs(force_b));
        (net_force, collision)
    }

    /// Finalize this experiment into a consensus ore: classify it, name it
    /// after the two positions and the resolution (or the synthesized
    /// material), and carry the certainty, jitter and structure over.
    pub fn crystallize(self, current_tick: u64) -> (r: ConsensusOre)
        requires
            self.wf(),
        ensures
            r.ore_type == self.spec_ore_type(),
            r.vent_a == self.vent_a.position,
            r.vent_b == self.vent_b.position,
            r.certainty == certainty_of(self.accumulated_jitter as int),
            1 <= r.certainty <= SCALE,
            r.accumulated_jitter == self.accumulated_jitter,
            r.crystallization_time == if current_tick >= self.start_tick {
                current_tick - self.start_tick
            } else {
                0int
            },
            r.integration_value == fx_mul(
                certainty_of(self.accumulated_jitter as int),
                2_000_000,
            ),
            r.phase_structure == self.phase_structure,
            self.phase_structure matches Some(ps) ==> {
                &&& r.insight == Some(ps.material_description)
                &&& r.name@ == lower_of(
                    self.vent_a.position@.map_values(|c: char| if c == ' ' { '_' } else { c }),
                ) + "_"@ + lower_of(
                    self.vent_b.position@.map_values(|c: char| if c == ' ' { '_' } else { c }),
                ) + "_"@ + lower_of(
                    ps.material_name@.map_values(|c: char| if c == ' ' { '_' } else { c }),
                )
            },
            self.phase_structure is None ==> {
                &&& r.insight matches Some(ins) && ins@ == self.spec_insight(self.spec_ore_type())
                &&& r.name@ == lower_of(
                    self.vent_a.position@.map_values(|c: char| if c == ' ' { '_' } else { c }),
                ) + "_"@ + lower_of(
                    self.vent_b.position@.map_values(|c: char| if c == ' ' { '_' } else { c }),
                ) + "_"@ + self.spec_ore_type_name()
            },
    {
        let ore_type = self.determine_ore_type();
        let certainty = self.certainty();
        proof {
            lemma_certainty_range(self.accumulated_jitter as int);
        }
        let la = lowercase(underscored(self.vent_a.position.as_str()).as_str());
        let lb = lowercase(underscored(self.vent_b.position.as_str()).as_str());
        let mut name = la;
        name.append("_");
        name.append(lb.as_str());
        name.append("_");
        let elapsed = if current_tick >= self.start_tick {
            current_tick - self.start_tick
        } else {
            0
        };
        let integration_value = fmul(certainty, 2_000_000);
        match self.phase_structure {
            Some(ps) => {
                let tail = lowercase(underscored(ps.material_name.as_str()).as_str());
                name.append(tail.as_str());
                proof {
                    assert(name@ =~= lower_of(
                        self.vent_a.position@.map_values(|c: char| if c == ' ' { '_' } else { c }),
                    ) + "_"@ + lower_of(
                        self.vent_b.position@.map_values(|c: char| if c == ' ' { '_' } else { c }),
                    ) + "_"@ + lower_of(
                        ps.material_name@.map_values(|c: char| if c == ' ' { '_' } else { c }),
                    ));
                }
                ConsensusOre {
                    id: fresh_id(),
                    name,
                    ore_type,
                    vent_a: self.vent_a.position,
                    vent_b: self.vent_b.position,
                    certainty,
                    accumulated_jitter: self.accumulated_jitter,
                    crystallization_time: elapsed,
                    insight: Some(ps.material_description.clone()),
                    integration_value,
                    phase_structure: Some(ps),
                }
            },
            None => {
                let insight = self.generate_insight(ore_type);
                name.append(ore_type.as_str());
                proof {
                    assert(name@ =~= lower_of(
                        self.vent_a.position@.map_values(|c: char| if c == ' ' { '_' } else { c }),
                    ) + "_"@ + lower_of(
                        self.vent_b.position@.map_values(|c: char| if c == ' ' { '_' } else { c }),
                    ) + "_"@ + self.spec_ore_type_name());
                }
                ConsensusOre {
                    id: fresh_id(),
                    name,
                    ore_type,
                    vent_a: self.vent_a.position,
                    vent_b: self.vent_b.position,
                    certainty,
                    accumulated_jitter: self.accumulated_jitter,
                    crystallization_time: elapsed,
                    insight: Some(insight),
                    integration_value,
                    phase_structure: None,
                }
            },
        }
    }

    /// Freeze the current probe field and extract the phase structure:
    /// sort the probes by depth, tessellate the depth space into Voronoi
    /// cells bounded by midpoints, classify each cell against the two vent
    /// depths, normalize the class territories, and synthesize the
    /// emergent properties and material.  The structure is stored on the
    /// experiment and the transition is marked done.
    #[verifier::rlimit(100)]
    pub fn extract_phase_structure(&mut self, current_tick: u64)
        requires
            old(self).wf(),
        ensures
            final(self).wf(),
            final(self).phase_transitioned,
            final(self).phase_structure is Some,
            *final(self) == (ConsensusExperiment {
                phase_transitioned: true,
                phase_structure: final(self).phase_structure,
                ..*old(self)
            }),
            final(self).phase_structure matches Some(ps) ==> {
                let cells = ps.voronoi_cells@;
                let probes = ps.frozen_probes@;
                let cc = (old(self).vent_a.depth + old(self).vent_b.depth) as int / 2;
                &&& ps.wf()
                &&& ps.transition_tick == current_tick
                &&& ps.trigger_jitter == current_jitter_of(old(self).velocity_history@)
                &&& ps.position_a@ == old(self).vent_a.position@
                &&& ps.position_b@ == old(self).vent_b.position@
                &&& cells.len() == old(self).probe_snapshots@.len()
                &&& probes.len() == cells.len()
                &&& probes.map_values(|p: FrozenProbe| (p.id, p.depth, p.frozen_velocity))
                    .to_multiset() == old(self).probe_snapshots@.to_multiset()
                &&& forall|i: int| 0 <= i < cells.len() ==> {
                    &&& (#[trigger] cells[i]).owner_id == probes[i].id
                    &&& cells[i].center == probes[i].depth
                    &&& cells[i].left_bound == spec_left_bound(cells, i)
                    &&& cells[i].right_bound == spec_right_bound(cells, i)
                    &&& cells[i].width == cells[i].right_bound - cells[i].left_bound
                    &&& cells[i].dominance == spec_cell_dominance(
                        cells[i].center as int,
                        old(self).vent_a.depth as int,
                        old(self).vent_b.depth as int,
                        cc,
                    )
                }
                &&& forall|i: int, j: int| 0 <= i <= j < cells.len()
                    ==> (#[trigger] cells[i]).center <= (#[trigger] cells[j]).center
                &&& {
                    let ta = class_width_sum(cells, VentDominance::VentA);
                    let tb = class_width_sum(cells, VentDominance::VentB);
                    let tc = class_width_sum(cells, VentDominance::Contested);
                    let total = ta + tb + tc;
                    &&& ps.vent_a_territory == (if total > 0 { fx_div(ta, total) } else { 0 })
                    &&& ps.vent_b_territory == (if total > 0 { fx_div(tb, total) } else { 0 })
                    &&& ps.contested_territory == (if total > 0 { fx_div(tc, total) } else { 0 })
                }
                &&& ps.collision_boundary == (if class_count(cells, VentDominance::Contested) == 0 {
                    cc
                } else {
                    div_tz(
                        class_center_sum(cells, VentDominance::Contested),
                        class_count(cells, VentDominance::Contested),
                    )
                })
                &&& ps.emergent_properties@.len() == (if ps.cond_sovereignty() { 1int } else { 0int })
                    + (if ps.cond_gradient() { 1int } else { 0int }) + (if ps.cond_advantage() {
                    1int
                } else {
                    0int
                }) + (if ps.cond_stratification() { 1int } else { 0int })
                &&& ps.material_name@ == ps.material_name_of()
            },
    {
        self.phase_transitioned = true;
        let mut snaps: Vec<(u128, i64, i64)> = Vec::new();
        let mut k: usize = 0;
        while k < self.probe_snapshots.len()
            invariant
                old(self).wf(),
                self.probe_snapshots@ == old(self).probe_snapshots@,
                k <= self.probe_snapshots@.len(),
                snaps@ == self.probe_snapshots@.take(k as int),
            decreases self.probe_snapshots@.len() - k,
        {
            snaps.push(self.probe_snapshots[k]);
            proof {
                assert(snaps@ =~= self.probe_snapshots@.take(k + 1 as int));
            }
            k = k + 1;
        }
        proof {
            assert(snaps@ =~= self.probe_snapshots@);
        }
        let sorted = sort_snapshots(snaps);
        let vent_a_depth = self.vent_a.depth;
        let vent_b_depth = self.vent_b.depth;
        let collision_center = fhalf(fadd(vent_a_depth, vent_b_depth));
        let trigger_jitter = self.current_jitter();

        let (cells, probes) = build_tessellation(
            &sorted,
            vent_a_depth,
            vent_b_depth,
            collision_center,
        );
        let (territory_a, territory_b, contested, contested_center_total, contested_count) =
            class_totals(&cells);

        let total = territory_a + territory_b + contested;
        let (norm_a, norm_b, norm_c) = if total > 0 {
            proof {
                assert(territory_a * SCALE <= total * SCALE && 0 <= territory_a * SCALE)
                    by (nonlinear_arith)
                    requires 0 <= territory_a <= total, 0 < SCALE as int;
                assert(territory_b * SCALE <= total * SCALE && 0 <= territory_b * SCALE)
                    by (nonlinear_arith)
                    requires 0 <= territory_b <= total, 0 < SCALE as int;
                assert(contested * SCALE <= total * SCALE && 0 <= contested * SCALE)
                    by (nonlinear_arith)
                    requires 0 <= contested <= total, 0 < SCALE as int;
            }
            let na = fdiv(territory_a, total);
            let nb = fdiv(territory_b, total);
            let nc = fdiv(contested, total);
            proof {
                lemma_normalized_share(territory_a as int, total as int);
                lemma_normalized_share(territory_b as int, total as int);
                lemma_normalized_share(contested as int, total as int);
            }
            (na, nb, nc)
        } else {
            (0, 0, 0)
        };

        let collision_boundary = if contested_count == 0 {
            collision_center
        } else {
            let m = fdivi(contested_center_total, contested_count);
            proof {
                assert(0 <= contested_center_total as int / (contested_count as int)
                    <= SCALE) by (nonlinear_arith)
                    requires
                        0 <= contested_center_total <= contested_count * SCALE,
                        1 <= contested_count;
            }
            m
        };

        let mut structure = PhaseStructure {
            id: fresh_id(),
            transition_tick: current_tick,
            trigger_jitter,
            frozen_probes: probes,
            voronoi_cells: cells,
            vent_a_territory: norm_a,
            vent_b_territory: norm_b,
            contested_territory: norm_c,
            collision_boundary,
            emergent_properties: Vec::new(),
            material_name: copied(""),
            material_description: copied(""),
            position_a: copied(self.vent_a.position.as_str()),
            position_b: copied(self.vent_b.position.as_str()),
        };
        structure.extract_emergent_properties();
        structure.synthesize_material();
        proof {
            let cs = structure.voronoi_cells@;
            let pr = structure.frozen_probes@;
            assert forall|i: int| 0 <= i < cs.len() implies {
                &&& (#[trigger] cs[i]).left_bound == spec_left_bound(cs, i)
                &&& cs[i].right_bound == spec_right_bound(cs, i)
            } by {
                if i > 0 {
                    assert(cs[i - 1].center == sorted@[i - 1].1);
                }
                if i < cs.len() - 1 {
                    assert(cs[i + 1].center == sorted@[i + 1].1);
                }
            }
            assert forall|i: int, j: int| 0 <= i <= j < cs.len() implies (
            #[trigger] cs[i]).center <= (#[trigger] cs[j]).center by {
                assert(sorted@[i].1 <= sorted@[j].1);
            }
            assert(pr.map_values(|p: FrozenProbe| (p.id, p.depth, p.frozen_velocity)) =~= sorted@);
            assert(pr.map_values(|p: FrozenProbe| (p.id, p.depth, p.frozen_velocity)).to_multiset()
                == old(self).probe_snapshots@.to_multiset());
        }
        self.phase_structure = Some(structure);
    }

    /// The lowercase name of the resolution kind this experiment yields.
    pub open spec fn spec_ore_type_name(self) -> Seq<char> {
        let t = self.spec_ore_type();
        if t is Synthesis {
            "synthesis"@
        } else if t is Transcendence {
            "transcendence"@
        } else if t is Dissolution {
            "dissolution"@
        } else if t is Paradox {
            "paradox"@
        } else {
            "nullification"@
        }
    }
}

/// Certainty is always in `(0, SCALE]`, and it equals `SCALE` exactly when
/// the accumulated jitter is exactly zero.
pub proof fn lemma_certainty_range(accumulated_jitter: int)
    requires
        0 <= accumulated_jitter <= MAG,
    ensures
        1 <= certainty_of(accumulated_jitter) <= SCALE,
        certainty_of(accumulated_jitter) == SCALE <==> accumulated_jitter == 0,
{
    let b = fx_add(SCALE as int, accumulated_jitter);
    assert(SCALE <= b <= MAG);
    let q = (SCALE as int) * (SCALE as int) / b;
    assert(1 <= q <= SCALE) by (nonlinear_arith)
        requires
            q == (SCALE as int) * (SCALE as int) / b,
            SCALE as int <= b <= (SCALE as int) * (SCALE as int);
    if accumulated_jitter == 0 {
        assert(q == SCALE) by (nonlinear_arith)
            requires q == (SCALE as int) * (SCALE as int) / b, b == SCALE as int;
    } else {
        assert(q < SCALE) by (nonlinear_arith)
            requires
                q == (SCALE as int) * (SCALE as int) / b,
                (SCALE as int) < b;
    }
}

/// Two phase structures carry the same information (string fields compared
/// by their characters).
pub open spec fn ps_like(a: PhaseStructure, b: PhaseStructure) -> bool {
    &&& a.id == b.id
    &&& a.transition_tick == b.transition_tick
    &&& a.trigger_jitter == b.trigger_jitter
    &&& a.frozen_probes@ == b.frozen_probes@
    &&& a.voronoi_cells@ == b.voronoi_cells@
    &&& a.vent_a_territory == b.vent_a_territory
    &&& a.vent_b_territory == b.vent_b_territory
    &&& a.contested_territory == b.contested_territory
    &&& a.collision_boundary == b.collision_boundary
    &&& a.emergent_properties@.len() == b.emergent_properties@.len()
    &&& forall|i: int| 0 <= i < a.emergent_properties@.len() ==> {
        &&& (#[trigger] a.emergent_properties@[i]).name@ == b.emergent_properties@[i].name@
        &&& a.emergent_properties@[i].physical_basis@ == b.emergent_properties@[i].physical_basis@
        &&& a.emergent_properties@[i].confidence == b.emergent_properties@[i].confidence
        &&& a.emergent_properties@[i].depth_range == b.emergent_properties@[i].depth_range
    }
    &&& a.material_name@ == b.material_name@
    &&& a.material_description@ == b.material_description@
    &&& a.position_a@ == b.position_a@
    &&& a.position_b@ == b.position_b@
}

/// Two consensus ores carry the same information.
pub open spec fn ore_like(a: ConsensusOre, b: ConsensusOre) -> bool {
    &&& a.id == b.id
    &&& a.name@ == b.name@
    &&& a.ore_type == b.ore_type
    &&& a.vent_a@ == b.vent_a@
    &&& a.vent_b@ == b.vent_b@
    &&& a.certainty == b.certainty
    &&& a.accumulated_jitter == b.accumulated_jitter
    &&& a.crystallization_time == b.crystallization_time
    &&& (a.insight is Some <==> b.insight is Some)
    &&& (a.insight matches Some(x) ==> b.insight matches Some(y) && x@ == y@)
    &&& a.integration_value == b.integration_value
    &&& (a.phase_structure is Some <==> b.phase_structure is Some)
    &&& (a.phase_structure matches Some(x) ==> b.phase_structure matches Some(y) && ps_like(x, y))
}

/// Duplicate a phase structure field by field.
fn clone_phase_structure(ps: &PhaseStructure) -> (r: PhaseStructure)
    ensures
        ps_like(r, *ps),
{
    let mut frozen_probes: Vec<FrozenProbe> = Vec::new();
    let mut k: usize = 0;
    while k < ps.frozen_probes.len()
        invariant
            k <= ps.frozen_probes@.len(),
            frozen_probes@ == ps.frozen_probes@.take(k as int),
        decreases ps.frozen_probes@.len() - k,
    {
        frozen_probes.push(ps.frozen_probes[k]);
        proof {
            assert(frozen_probes@ =~= ps.frozen_probes@.take(k + 1 as int));
        }
        k = k + 1;
    }
    let mut voronoi_cells: Vec<VoronoiCell> = Vec::new();
    let mut k2: usize = 0;
    while k2 < ps.voronoi_cells.len()
        invariant
            k2 <= ps.voronoi_cells@.len(),
            voronoi_cells@ == ps.voronoi_cells@.take(k2 as int),
        decreases ps.voronoi_cells@.len() - k2,
    {
        voronoi_cells.push(ps.voronoi_cells[k2]);
        proof {
            assert(voronoi_cells@ =~= ps.voronoi_cells@.take(k2 + 1 as int));
        }
        k2 = k2 + 1;
    }
    let mut emergent_properties: Vec<EmergentProperty> = Vec::new();
    let mut k3: usize = 0;
    while k3 < ps.emergent_properties.len()
        invariant
            k3 <= ps.emergent_properties@.len(),
            emergent_properties@.len() == k3,
            forall|i: int| 0 <= i < k3 ==> {
                &&& (#[trigger] emergent_properties@[i]).name@ == ps.emergent_properties@[i].name@
                &&& emergent_properties@[i].physical_basis@
                    == ps.emergent_properties@[i].physical_basis@
                &&& emergent_properties@[i].confidence == ps.emergent_properties@[i].confidence
                &&& emergent_properties@[i].depth_range == ps.emergent_properties@[i].depth_range
            },
        decreases ps.emergent_properties@.len() - k3,
    {
        let p = &ps.emergent_properties[k3];
        emergent_properties.push(
            EmergentProperty {
                name: copied(p.name.as_str()),
                physical_basis: copied(p.physical_basis.as_str()),
                confidence: p.confidence,
                depth_range: p.depth_range,
            },
        );
        k3 = k3 + 1;
    }
    proof {
        assert(frozen_probes@ =~= ps.frozen_probes@);
        assert(voronoi_cells@ =~= ps.voronoi_cells@);
    }
    PhaseStructure {
        id: ps.id,
        transition_tick: ps.transition_tick,
        trigger_jitter: ps.trigger_jitter,
        frozen_probes,
        voronoi_cells,
        vent_a_territory: ps.vent_a_territory,
        vent_b_territory: ps.vent_b_territory,
        contested_territory: ps.contested_territory,
        collision_boundary: ps.collision_boundary,
        emergent_properties,
        material_name: copied(ps.material_name.as_str()),
        material_description: copied(ps.material_description.as_str()),
        position_a: copied(ps.position_a.as_str()),
        position_b: copied(ps.position_b.as_str()),
    }
}

/// Duplicate a consensus ore field by field.
fn clone_ore(o: &ConsensusOre) -> (r: ConsensusOre)
    ensures
        ore_like(r, *o),
{
    let insight = match &o.insight {
        Some(s) => Some(copied(s.as_str())),
        None => None,
    };
    let phase_structure = match &o.phase_structure {
        Some(ps) => Some(clone_phase_structure(ps)),
        None => None,
    };
    ConsensusOre {
        id: o.id,
        name: copied(o.name.as_str()),
        ore_type: o.ore_type,
        vent_a: copied(o.vent_a.as_str()),
        vent_b: copied(o.vent_b.as_str()),
        certainty: o.certainty,
        accumulated_jitter: o.accumulated_jitter,
        crystallization_time: o.crystallization_time,
        insight,
        integration_value: o.integration_value,
        phase_structure,
    }
}

/// The saturating sum of the certainties of a run of ores.
pub open spec fn certainty_sum(s: Seq<ConsensusOre>) -> int
    decreases s.len(),
{
    if s.len() == 0 {
        0
    } else {
        fx_add(certainty_sum(s.drop_last()), s.last().certainty as int)
    }
}

/// The consensus reactor: at most one active experiment, and the ores that
/// past experiments crystallized.
pub struct ConsensusReactor {
    /// The currently active experiment, if any.
    pub active_experiment: Option<ConsensusExperiment>,
    /// Crystallized consensus ores (noise can be cleared away).
    pub ore_deposits: Vec<ConsensusOre>,
    /// Every crystallized ore, kept forever.
    pub experiment_history: Vec<ConsensusOre>,
    /// How many experiments were started.
    pub total_experiments: u32,
}

impl ConsensusReactor {
    /// The reactor's contents are inside their documented bands.
    pub open spec fn wf(self) -> bool {
        &&& (self.active_experiment matches Some(e) ==> e.wf())
        &&& forall|i: int| 0 <= i < self.ore_deposits@.len()
            ==> 0 <= (#[trigger] self.ore_deposits@[i]).certainty <= SCALE
    }

    /// An empty reactor.
    pub fn new() -> (r: ConsensusReactor)
        ensures
            r.active_experiment is None,
            r.ore_deposits@.len() == 0,
            r.experiment_history@.len() == 0,
            r.total_experiments == 0,
            r.wf(),
    {
        ConsensusReactor {
            active_experiment: None,
            ore_deposits: Vec::new(),
            experiment_history: Vec::new(),
            total_experiments: 0,
        }
    }

    /// Start a new consensus experiment with two contradictory positions,
    /// replacing any active one, and hand back its identifier.
    pub fn start_experiment(
        &mut self,
        position_a: String,
        heat_a: i64,
        position_b: String,
        heat_b: i64,
        current_tick: u64,
    ) -> (r: u128)
        requires
            old(self).wf(),
            0 <= heat_a <= MAG,
            0 <= heat_b <= MAG,
        ensures
            final(self).wf(),
            final(self).active_experiment matches Some(e) ==> {
                &&& e.id == r
                &&& e.vent_a.position == position_a
                &&& e.vent_a.heat_output == heat_a
                &&& e.vent_b.position == position_b
                &&& e.vent_b.heat_output == heat_b
                &&& e.start_tick == current_tick
                &&& e.accumulated_jitter == 0
                &&& e.probe_ids@.len() == 0
                &&& e.probe_snapshots@.len() == 0
                &&& e.velocity_history@.len() == 0
                &&& !e.crystallized
                &&& !e.phase_transitioned
            },
            final(self).active_experiment is Some,
            final(self).total_experiments == (if old(self).total_experiments < u32::MAX {
                old(self).total_experiments + 1
            } else {
                old(self).total_experiments as int
            }),
            final(self).ore_deposits == old(self).ore_deposits,
            final(self).experiment_history == old(self).experiment_history,
    {
        let mut experiment = ConsensusExperiment::new(position_a, heat_a, position_b, heat_b);
        experiment.start_tick = current_tick;
        let id = experiment.id;
        self.active_experiment = Some(experiment);
        if self.total_experiments < u32::MAX {
            self.total_experiments = self.total_experiments + 1;
        }
        id
    }

    /// The active experiment, if any.
    pub fn get_experiment(&self) -> (r: Option<&ConsensusExperiment>)
        ensures
            (r is Some) <==> (self.active_experiment is Some),
            r matches Some(e) ==> self.active_experiment matches Some(a) && *e == a,
    {
        self.active_experiment.as_ref()
    }

    /// Register an injected probe concept with the active experiment (a
    /// no-op without one).
    pub fn register_probe(&mut self, id: u128)
        requires
            old(self).wf(),
        ensures
            final(self).wf(),
            old(self).active_experiment is None ==> *final(self) == *old(self),
            old(self).active_experiment matches Some(e) ==> {
                &&& final(self).active_experiment matches Some(e2)
                &&& e2.probe_ids@ == e.probe_ids@.push(id)
                &&& e2 == (ConsensusExperiment { probe_ids: e2.probe_ids, ..e })
                &&& *final(self) == (ConsensusReactor {
                    active_experiment: final(self).active_experiment,
                    ..*old(self)
                })
            },
    {
        match &mut self.active_experiment {
            Some(experiment) => {
                experiment.probe_ids.push(id);
            },
            None => {},
        }
    }

    /// Record one mean-probe-velocity sample on the active experiment (a
    /// no-op without one).
    pub fn record_velocity(&mut self, avg_velocity: i64)
        requires
            old(self).wf(),
            fx_ok(avg_velocity),
        ensures
            final(self).wf(),
            old(self).active_experiment is None ==> *final(self) == *old(self),
            old(self).active_experiment matches Some(e) ==> {
                &&& final(self).active_experiment matches Some(e2)
                &&& e2.velocity_history@ == (if e.velocity_history@.len() < 120 {
                    e.velocity_history@.push(avg_velocity)
                } else {
                    e.velocity_history@.push(avg_velocity).subrange(
                        1,
                        e.velocity_history@.len() as int + 1,
                    )
                })
                &&& e2 == (ConsensusExperiment { velocity_history: e2.velocity_history, ..e })
                &&& *final(self) == (ConsensusReactor {
                    active_experiment: final(self).active_experiment,
                    ..*old(self)
                })
            },
    {
        match &mut self.active_experiment {
            Some(experiment) => {
                experiment.record_velocity(avg_velocity);
            },
            None => {},
        }
    }

    /// Record or refresh one probe snapshot on the active experiment (a
    /// no-op without one).
    pub fn record_probe_snapshot(&mut self, id: u128, depth: i64, velocity: i64)
        requires
            old(self).wf(),
            0 <= depth <= SCALE,
            fx_ok(velocity),
            old(self).active_experiment matches Some(e) ==> e.probe_snapshots@.len() < SCALE,
        ensures
            final(self).wf(),
            old(self).active_experiment is None ==> *final(self) == *old(self),
            old(self).active_experiment matches Some(e) ==> {
                &&& final(self).active_experiment matches Some(e2)
                &&& e2.probe_snapshots@ == (if snap_index(e.probe_snapshots@, id) >= 0 {
                    e.probe_snapshots@.update(
                        snap_index(e.probe_snapshots@, id),
                        (id, depth, velocity),
                    )
                } else {
                    e.probe_snapshots@.push((id, depth, velocity))
                })
                &&& e2 == (ConsensusExperiment { probe_snapshots: e2.probe_snapshots, ..e })
                &&& *final(self) == (ConsensusReactor {
                    active_experiment: final(self).active_experiment,
                    ..*old(self)
                })
            },
    {
        match &mut self.active_experiment {
            Some(experiment) => {
                experiment.record_probe_snapshot(id, depth, velocity);
            },
            None => {},
        }
    }

    /// Fire the phase transition on the active experiment if its time has
    /// come; say whether it fired.
    pub fn maybe_phase_transition(&mut self, current_tick: u64) -> (r: bool)
        requires
            old(self).wf(),
        ensures
            final(self).wf(),
            old(self).active_experiment is None ==> *final(self) == *old(self) && !r,
            old(self).active_experiment matches Some(e) ==> {
                &&& r == e.spec_should_phase_transition(current_tick)
                &&& !r ==> *final(self) == *old(self)
                &&& r ==> {
                    &&& final(self).active_experiment matches Some(e2)
                    &&& e2.phase_transitioned
                    &&& e2.phase_structure is Some
                    &&& e2 == (ConsensusExperiment {
                        phase_transitioned: true,
                        phase_structure: e2.phase_structure,
                        ..e
                    })
                    &&& *final(self) == (ConsensusReactor {
                        active_experiment: final(self).active_experiment,
                        ..*old(self)
                    })
                }
            },
    {
        match &mut self.active_experiment {
            Some(experiment) => {
                if experiment.should_phase_transition(current_tick) {
                    experiment.extract_phase_structure(current_tick);
                    true
                } else {
                    false
                }
            },
            None => false,
        }
    }

    /// Advance the active experiment by one tick: accumulate the current
    /// jitter, track the peak, and crystallize when the check succeeds.
    /// On crystallization the ore is deposited, recorded in the history,
    /// and returned; the experiment ends.
    pub fn update(&mut self, current_tick: u64) -> (r: Option<ConsensusOre>)
        requires
            old(self).wf(),
        ensures
            final(self).wf(),
            old(self).active_experiment is None ==> *final(self) == *old(self) && r is None,
            old(self).active_experiment matches Some(e) ==> {
                let cur = current_jitter_of(e.velocity_history@);
                let e1 = ConsensusExperiment {
                    accumulated_jitter: fx_add(e.accumulated_jitter as int, cur) as i64,
                    peak_jitter: (if cur > e.peak_jitter { cur } else { e.peak_jitter as int }) as i64,
                    ..e
                };
                if e1.spec_check_result(current_tick) {
                    let e2 = e1.spec_check_state(current_tick);
                    &&& final(self).active_experiment is None
                    &&& (r matches Some(ore) && {
                        &&& ore.ore_type == e2.spec_ore_type()
                        &&& ore.certainty == certainty_of(e2.accumulated_jitter as int)
                        &&& 1 <= ore.certainty <= SCALE
                        &&& ore.accumulated_jitter == e2.accumulated_jitter
                        &&& ore.vent_a == e.vent_a.position
                        &&& ore.vent_b == e.vent_b.position
                        &&& ore.crystallization_time == e2.spec_elapsed(current_tick)
                        &&& final(self).ore_deposits@.len() == old(self).ore_deposits@.len() + 1
                        &&& ore_like(final(self).ore_deposits@.last(), ore)
                        &&& final(self).experiment_history@.len() == old(
                            self,
                        ).experiment_history@.len() + 1
                        &&& ore_like(final(self).experiment_history@.last(), ore)
                        &&& forall|i: int| 0 <= i < old(self).ore_deposits@.len()
                            ==> #[trigger] final(self).ore_deposits@[i] == old(
                            self,
                        ).ore_deposits@[i]
                    })
                } else {
                    &&& final(self).active_experiment == Some(e1.spec_check_state(current_tick))
                    &&& r is None
                    &&& final(self).ore_deposits == old(self).ore_deposits
                    &&& final(self).experiment_history == old(self).experiment_history
                }
            },
    {
        let experiment = match self.active_experiment.take() {
            Some(e) => e,
            None => { return None; },
        };
        let mut experiment = experiment;
        let current_jitter = experiment.current_jitter();
        experiment.accumulated_jitter = fadd(experiment.accumulated_jitter, current_jitter);
        if current_jitter > experiment.peak_jitter {
            experiment.peak_jitter = current_jitter;
        }
        if experiment.check_crystallization(current_tick) {
            let ore = experiment.crystallize(current_tick);
            let deposited = clone_ore(&ore);
            let archived = clone_ore(&ore);
            self.ore_deposits.push(deposited);
            self.experiment_history.push(archived);
            Some(ore)
        } else {
            self.active_experiment = Some(experiment);
            None
        }
    }

    /// The foundational truths: every deposited ore whose certainty
    /// exceeds `0.8`, in deposit order.
    pub fn foundational_truths(&self) -> (r: Vec<&ConsensusOre>)
        ensures
            r@.map_values(|o: &ConsensusOre| *o) == self.ore_deposits@.filter(
                |o: ConsensusOre| o.certainty > 800_000,
            ),
    {
        let mut out: Vec<&ConsensusOre> = Vec::new();
        let mut k: usize = 0;
        proof {
            reveal(Seq::filter);
        }
        while k < self.ore_deposits.len()
            invariant
                k <= self.ore_deposits@.len(),
                out@.map_values(|o: &ConsensusOre| *o) == self.ore_deposits@.take(k as int).filter(
                    |o: ConsensusOre| o.certainty > 800_000,
                ),
            decreases self.ore_deposits@.len() - k,
        {
            proof {
                reveal(Seq::filter);
                assert(self.ore_deposits@.take(k + 1 as int).drop_last() =~= self.ore_deposits@.take(
                    k as int,
                ));
            }
            let o = &self.ore_deposits[k];
            if o.certainty > 800_000 {
                out.push(o);
            }
            proof {
                assert(out@.map_values(|o: &ConsensusOre| *o) =~= self.ore_deposits@.take(
                    k + 1 as int,
                ).filter(|o: ConsensusOre| o.certainty > 800_000));
            }
            k = k + 1;
        }
        proof {
            assert(self.ore_deposits@.take(self.ore_deposits@.len() as int) =~= self.ore_deposits@);
        }
        out
    }

    /// The average certainty over all deposited ores (zero when none).
    pub fn average_certainty(&self) -> (r: i64)
        requires
            self.wf(),
        ensures
            r == (if self.ore_deposits@.len() == 0 {
                0int
            } else {
                div_tz(certainty_sum(self.ore_deposits@), self.ore_deposits@.len() as int)
            }),
    {
        let n = self.ore_deposits.len();
        if n == 0 {
            return 0;
        }
        let mut sum: i64 = 0;
        let mut k: usize = 0;
        while k < n
            invariant
                self.wf(),
                n == self.ore_deposits@.len(),
                k <= n,
                sum == certainty_sum(self.ore_deposits@.take(k as int)),
                0 <= sum <= MAG,
            decreases n - k,
        {
            proof {
                assert(self.ore_deposits@.take(k + 1 as int).drop_last() =~= self.ore_deposits@.take(
                    k as int,
                ));
            }
            sum = fadd(sum, self.ore_deposits[k].certainty);
            k = k + 1;
        }
        proof {
            assert(self.ore_deposits@.take(n as int) =~= self.ore_deposits@);
        }
        if (n as u64) > (MAG as u64) {
            proof {
                assert(certainty_sum(self.ore_deposits@) / (n as int) == 0) by (nonlinear_arith)
                    requires
                        0 <= certainty_sum(self.ore_deposits@) <= MAG,
                        certainty_sum(self.ore_deposits@) < n as int;
            }
            0
        } else {
            fdivi(sum, n as i64)
        }
    }

    /// Clear all noise (certainty below `0.2`) from the deposits; hand
    /// back how many ores left.
    pub fn clear_noise(&mut self) -> (r: usize)
        requires
            old(self).wf(),
        ensures
            final(self).wf(),
            final(self).ore_deposits@ == old(self).ore_deposits@.filter(
                |o: ConsensusOre| o.certainty >= 200_000,
            ),
            r == old(self).ore_deposits@.len() - final(self).ore_deposits@.len(),
            *final(self) == (ConsensusReactor { ore_deposits: final(self).ore_deposits, ..*old(self) }),
    {
        let ghost orig = old(self).ore_deposits@;
        let before = self.ore_deposits.len();
        let mut kept: Vec<ConsensusOre> = Vec::new();
        proof {
            reveal(Seq::filter);
            assert(orig.skip(0) =~= orig);
        }
        while self.ore_deposits.len() > 0
            invariant
                old(self).wf(),
                orig == old(self).ore_deposits@,
                self.ore_deposits@.len() <= orig.len(),
                self.ore_deposits@ == orig.skip(orig.len() - self.ore_deposits@.len()),
                kept@ == orig.take(orig.len() - self.ore_deposits@.len()).filter(
                    |o: ConsensusOre| o.certainty >= 200_000,
                ),
                forall|i: int| 0 <= i < kept@.len() ==> 0 <= (#[trigger] kept@[i]).certainty
                    <= SCALE,
                *self == (ConsensusReactor { ore_deposits: self.ore_deposits, ..*old(self) }),
            decreases self.ore_deposits@.len(),
        {
            let ghost k = orig.len() - self.ore_deposits@.len();
            let o = self.ore_deposits.remove(0);
            proof {
                assert(orig.skip(k)[0] == orig[k]);
                assert(self.ore_deposits@ =~= orig.skip(k + 1));
                reveal(Seq::filter);
                assert(orig.take(k + 1).drop_last() =~= orig.take(k));
                assert(orig.take(k + 1).last() == orig[k]);
            }
            if o.certainty >= 200_000 {
                kept.push(o);
            }
            proof {
                assert(kept@ =~= orig.take(k + 1).filter(
                    |o: ConsensusOre| o.certainty >= 200_000,
                ));
            }
        }
        proof {
            reveal(Seq::filter);
            assert(orig.take(orig.len() as int) =~= orig);
            Seq::lemma_filter_len(orig, |o: ConsensusOre| o.certainty >= 200_000);
        }
        self.ore_deposits = kept;
        before - self.ore_deposits.len()
    }
}

} // verus!
