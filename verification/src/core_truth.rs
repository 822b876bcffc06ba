//! Core truths: fixed-depth vents that radiate heat upward and strengthen
//! with every qualifying encounter.

use vstd::prelude::*;

verus! {

use crate::fixed::{MAG, SCALE};

/// A deep-sea hydrothermal vent: a foundational belief that creates a
/// persistent upward thermal current around its depth.
pub struct CoreTruth {
    pub name: String,
    /// Thermal energy radiating from this truth; non-negative.
    pub heat_output: i64,
    /// Position in the fluid; in `[0, SCALE]`.
    pub depth: i64,
    /// Area of influence of the thermal plume; positive.
    pub radius: i64,
    /// Strengthens each time a concept encounters it.
    pub activation_count: u32,
}

impl CoreTruth {
    /// The numeric fields are inside their documented bands.
    pub open spec fn wf(self) -> bool {
        &&& 0 <= self.heat_output <= MAG
        &&& 0 <= self.depth <= SCALE
        &&& 0 < self.radius <= SCALE
    }

    /// Create a vent with no activations yet.
    pub fn new(name: String, heat_output: i64, depth: i64, radius: i64) -> (r: CoreTruth)
        requires
            0 <= heat_output <= MAG,
            0 <= depth <= SCALE,
            0 < radius <= SCALE,
        ensures
            r.name == name,
            r.heat_output == heat_output,
            r.depth == depth,
            r.radius == radius,
            r.activation_count == 0,
            r.wf(),
    {
        CoreTruth { name, heat_output, depth, radius, activation_count: 0 }
    }
}

} // verus!
