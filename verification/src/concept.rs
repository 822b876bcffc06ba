//! A concept: a particle in the depth field with physical properties.

use vstd::prelude::*;

verus! {

use crate::fixed::{fx_ok, fmul, fx_mul, MAG, SCALE};

/// A concept (thought) in the fluid medium.  Concepts float, sink, freeze,
/// evaporate and break through the surface based on their density, buoyancy
/// and accumulated integration.  All fractional quantities are fixed-point
/// values scaled by [`SCALE`].
pub struct Concept {
    pub id: u128,
    pub name: String,
    /// Intrinsic weight, in `[0, SCALE]`.
    pub density: i64,
    /// Current effective lift, in `[0, SCALE]`.
    pub buoyancy: i64,
    /// Depth position: `0` is the surface, `SCALE` the floor.
    pub layer: i64,
    /// Rate of layer change; positive sinks, negative rises.
    pub velocity: i64,
    /// Drag / connectivity coefficient, non-negative.
    pub area: i64,
    /// Has this concept broken through the surface into action?
    pub has_broken_surface: bool,
    /// Accumulated seconds spent inside the freeze zone.
    pub time_at_surface: i64,
    /// Is this concept the one holding the global freeze?
    pub is_frozen: bool,
    /// Accumulated energy turned into understanding; never decreases.
    pub integration: i64,
    /// Decaying turbulent-energy carrier.
    pub eddy_scale: i64,
    /// Has this concept evaporated into a permanent trait?
    pub has_evaporated: bool,
    /// Transient density add-on for benthic expeditions.
    pub ballast: i64,
    /// Was this concept synthesized from a problem and an ore?
    pub is_solution: bool,
    /// How many qualifying vent encounters this concept has had.
    pub vent_encounters: u32,
}

impl Concept {
    /// The numeric fields are inside their documented bands.
    pub open spec fn wf(self) -> bool {
        &&& 0 <= self.density <= SCALE
        &&& 0 <= self.buoyancy <= SCALE
        &&& 0 <= self.layer <= SCALE
        &&& fx_ok(self.velocity)
        &&& 0 <= self.area <= MAG
        &&& 0 <= self.time_at_surface <= MAG
        &&& 0 <= self.integration <= MAG
        &&& 0 <= self.eddy_scale <= MAG
        &&& 0 <= self.ballast <= MAG
    }

    /// Create a new concept at rest: its initial layer and buoyancy both
    /// equal its density, and every accumulator starts at zero.
    pub fn new(id: u128, name: String, density: i64, area: i64) -> (r: Concept)
        requires
            0 <= density <= SCALE,
            0 <= area <= MAG,
        ensures
            r.id == id,
            r.name == name,
            r.density == density,
            r.buoyancy == density,
            r.layer == density,
            r.velocity == 0,
            r.area == area,
            !r.has_broken_surface,
            r.time_at_surface == 0,
            !r.is_frozen,
            r.integration == 0,
            r.eddy_scale == 0,
            !r.has_evaporated,
            r.ballast == 0,
            !r.is_solution,
            r.vent_encounters == 0,
            r.wf(),
    {
        Concept {
            id,
            name,
            density,
            buoyancy: density,
            layer: density,
            velocity: 0,
            area,
            has_broken_surface: false,
            time_at_surface: 0,
            is_frozen: false,
            integration: 0,
            eddy_scale: 0,
            has_evaporated: false,
            ballast: 0,
            is_solution: false,
            vent_encounters: 0,
        }
    }

    /// Volume: how much space this concept occupies, the product of its
    /// density and area.
    pub fn volume(&self) -> (r: i64)
        requires
            self.wf(),
        ensures
            r == fx_mul(self.density as int, self.area as int),
    {
        fmul(self.density, self.area)
    }

    /// The current state of this concept as a word.
    pub fn status(&self) -> (r: &'static str)
        ensures
            self.is_frozen ==> r@ == "frozen"@,
            !self.is_frozen && self.has_evaporated ==> r@ == "evaporated"@,
            !self.is_frozen && !self.has_evaporated && self.velocity < -10_000 ==> r@ == "rising"@,
            !self.is_frozen && !self.has_evaporated && self.velocity > 10_000 ==> r@ == "sinking"@,
            !self.is_frozen && !self.has_evaporated && -10_000 <= self.velocity <= 10_000
                ==> r@ == "floating"@,
    {
        if self.is_frozen {
            "frozen"
        } else if self.has_evaporated {
            "evaporated"
        } else if self.velocity < -10_000 {
            "rising"
        } else if self.velocity > 10_000 {
            "sinking"
        } else {
            "floating"
        }
    }
}

} // verus!
