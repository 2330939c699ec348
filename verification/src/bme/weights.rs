//! Dispatch weights of the burn-mint equilibrium calls.

use vstd::prelude::*;

use crate::primitives::{RuntimeDbWeight, Weight, base_reads_writes, spec_base_reads_writes};

verus! {

pub trait WeightInfo {
    fn submit_burn(&self) -> Weight;

    fn mint_to_operator(&self) -> Weight;

    fn set_elasticity(&self) -> Weight;
}

/// Benchmarked weights, priced with the runtime's database weights.
#[derive(Clone, Copy, Debug, PartialEq, Eq, Structural)]
pub struct SubstrateWeight {
    pub db: RuntimeDbWeight,
}

impl WeightInfo for SubstrateWeight {
    fn submit_burn(&self) -> (w: Weight)
        ensures
            w == spec_base_reads_writes(Weight { ref_time: 30_000_000, proof_size: 2_048 }, self.db, 1, 1),
    {
        base_reads_writes(Weight::from_parts(30_000_000, 2_048), self.db, 1, 1)
    }

    fn mint_to_operator(&self) -> (w: Weight)
        ensures
            w == spec_base_reads_writes(Weight { ref_time: 40_000_000, proof_size: 4_096 }, self.db, 4, 2),
    {
        base_reads_writes(Weight::from_parts(40_000_000, 4_096), self.db, 4, 2)
    }

    fn set_elasticity(&self) -> (w: Weight)
        ensures
            w == (Weight { ref_time: 20_000_000, proof_size: 1_024 }).spec_saturating_add(self.db.spec_writes(1)),
    {
        Weight::from_parts(20_000_000, 1_024).saturating_add(self.db.writes(1))
    }
}

/// Weights without database costs.
impl WeightInfo for () {
    fn submit_burn(&self) -> (w: Weight)
        ensures
            w == (Weight { ref_time: 30_000_000, proof_size: 2_048 }),
    {
        Weight::from_parts(30_000_000, 2_048)
    }

    fn mint_to_operator(&self) -> (w: Weight)
        ensures
            w == (Weight { ref_time: 40_000_000, proof_size: 4_096 }),
    {
        Weight::from_parts(40_000_000, 4_096)
    }

    fn set_elasticity(&self) -> (w: Weight)
        ensures
            w == (Weight { ref_time: 20_000_000, proof_size: 1_024 }),
    {
        Weight::from_parts(20_000_000, 1_024)
    }
}

} // verus!
