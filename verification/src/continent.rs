//! Continents: permanent depth-range obstacles formed at tectonic shifts.

use vstd::prelude::*;

verus! {

use crate::fixed::{MAG, SCALE};

/// A permanent landmass occupying a band of depths.  Concepts whose layer
/// falls inside the band are reflected off it.
pub struct Continent {
    /// Name derived from the dominant ore composition.
    pub name: String,
    /// The depth band of solid ground, `depth_range.0 <= depth_range.1`.
    pub depth_range: (i64, i64),
    /// The names of the ore deposits that melted together to form this.
    pub formed_from_ores: Vec<String>,
    /// Combined wisdom that solidified into bedrock; non-negative.
    pub total_integration: i64,
    /// How much it blocks flow; in `[0, SCALE]`.
    pub impermeability: i64,
    /// Which tectonic shift created this (sequence number).
    pub formation_event: u32,
}

impl Continent {
    /// The numeric fields are inside their documented bands.
    pub open spec fn wf(self) -> bool {
        &&& 0 <= self.depth_range.0 <= self.depth_range.1 <= SCALE
        &&& 0 <= self.total_integration <= MAG
        &&& 0 <= self.impermeability <= SCALE
    }

    /// Does a depth fall within this continent's band?
    pub fn contains_depth(&self, depth: i64) -> (r: bool)
        ensures
            r == (self.depth_range.0 <= depth <= self.depth_range.1),
    {
        depth >= self.depth_range.0 && depth <= self.depth_range.1
    }
}

} // verus!
