//! Precious ore: mineralized artifacts deposited on the floor when heavy
//! concepts cycle repeatedly through a vent's heat.

use vstd::prelude::*;

verus! {

use crate::fixed::{fmul, fx_mul, MAG, SCALE};

/// The form a mineralized transformation took.
#[derive(Clone, Copy, Debug, Hash, PartialEq, Eq, Structural)]
pub enum OreType {
    /// Creative expression born from pain.
    Art,
    /// Solutions built from suffering.
    Code,
    /// Wisdom crystallized from darkness.
    Insight,
    /// Stories forged in the deep.
    Writing,
}

impl OreType {
    /// The lowercase name of this ore type.
    pub fn as_str(&self) -> (r: &'static str)
        ensures
            *self is Art ==> r@ == "art"@,
            *self is Code ==> r@ == "code"@,
            *self is Insight ==> r@ == "insight"@,
            *self is Writing ==> r@ == "writing"@,
    {
        match self {
            OreType::Art => "art",
            OreType::Code => "code",
            OreType::Insight => "insight",
            OreType::Writing => "writing",
        }
    }
}

/// A precious ore deposit on the ocean floor.
pub struct PreciousOre {
    /// Descriptive name.
    pub name: String,
    /// What form the transformation took.
    pub ore_type: OreType,
    /// Heavy; in `[0, SCALE]`.
    pub density: i64,
    /// Where it deposited, near its vent; in `[0, SCALE]`.
    pub depth: i64,
    /// Which concept created this.
    pub formed_from: u128,
    /// How many times the parent passed through heat.
    pub vent_cycles: u32,
    /// The accumulated wisdom in this ore; non-negative.
    pub integration_value: i64,
}

impl PreciousOre {
    /// The numeric fields are inside their documented bands.
    pub open spec fn wf(self) -> bool {
        &&& 0 <= self.density <= SCALE
        &&& 0 <= self.depth <= SCALE
        &&& 0 <= self.integration_value <= MAG
    }

    /// The weight this deposit contributes to tectonic pressure: the
    /// product of its density and integration value.
    pub fn pressure_weight(&self) -> (r: i64)
        requires
            self.wf(),
        ensures
            r == fx_mul(self.density as int, self.integration_value as int),
            0 <= r <= MAG,
    {
        let r = fmul(self.density, self.integration_value);
        proof {
            assert(self.density as int * self.integration_value as int >= 0) by (nonlinear_arith)
                requires self.density as int >= 0, self.integration_value as int >= 0;
        }
        r
    }
}

} // verus!
