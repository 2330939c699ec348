//! Dispatch weights of the proof-of-useful-work calls.

use vstd::prelude::*;

use crate::primitives::{RuntimeDbWeight, Weight, base_reads_writes, spec_base_reads_writes};

verus! {

pub trait WeightInfo {
    fn submit_cupow_transcript(&self) -> Weight;

    fn emit_pouw_reward(&self) -> Weight;
}

/// Benchmarked weights, priced with the runtime's database weights.
#[derive(Clone, Copy, Debug, PartialEq, Eq, Structural)]
pub struct SubstrateWeight {
    pub db: RuntimeDbWeight,
}

impl WeightInfo for SubstrateWeight {
    fn submit_cupow_transcript(&self) -> (w: Weight)
        ensures
            w == spec_base_reads_writes(Weight { ref_time: 40_000_000, proof_size: 4_096 }, self.db, 1, 1),
    {
        base_reads_writes(Weight::from_parts(40_000_000, 4_096), self.db, 1, 1)
    }

    fn emit_pouw_reward(&self) -> (w: Weight)
        ensures
            w == (Weight { ref_time: 20_000_000, proof_size: 1_024 }).spec_saturating_add(self.db.spec_reads(1)),
    {
        Weight::from_parts(20_000_000, 1_024).saturating_add(self.db.reads(1))
    }
}

/// Weights without database costs.
impl WeightInfo for () {
    fn submit_cupow_transcript(&self) -> (w: Weight)
        ensures
            w == (Weight { ref_time: 40_000_000, proof_size: 4_096 }),
    {
        Weight::from_parts(40_000_000, 4_096)
    }

    fn emit_pouw_reward(&self) -> (w: Weight)
        ensures
            w == (Weight { ref_time: 20_000_000, proof_size: 1_024 }),
    {
        Weight::from_parts(20_000_000, 1_024)
    }
}

} // verus!
