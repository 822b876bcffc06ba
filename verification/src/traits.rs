//! Character traits: the permanent records left behind when a concept
//! evaporates near the surface.

use vstd::prelude::*;

verus! {

use crate::fixed::MAG;

/// An evaporated concept, living on in the "atmosphere" above the fluid.
/// Traits are immutable and can precipitate new concepts back into the
/// fluid, passing on part of their integration.
pub struct CharacterTrait {
    pub name: String,
    /// How much understanding went into this trait; non-negative.
    pub integration: i64,
    /// Which concept evaporated to form this.
    pub formed_from: u128,
}

impl CharacterTrait {
    /// The numeric fields are inside their documented bands.
    pub open spec fn wf(self) -> bool {
        0 <= self.integration <= MAG
    }

    /// Record a trait.
    pub fn new(name: String, integration: i64, formed_from: u128) -> (r: CharacterTrait)
        requires
            0 <= integration <= MAG,
        ensures
            r.name == name,
            r.integration == integration,
            r.formed_from == formed_from,
            r.wf(),
    {
        CharacterTrait { name, integration, formed_from }
    }
}

} // verus!
