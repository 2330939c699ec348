//! Dispatch weights of the slashing calls.

use vstd::prelude::*;

use crate::primitives::{RuntimeDbWeight, Weight, base_reads_writes, spec_base_reads_writes};

verus! {

pub trait WeightInfo {
    fn submit_slashing_evidence(&self) -> Weight;

    fn dispute_slashing(&self) -> Weight;

    fn arbitrate_dispute(&self) -> Weight;

    fn ratify_dispute(&self) -> Weight;

    fn finalize_slash(&self) -> Weight;
}

/// Benchmarked weights, priced with the runtime's database weights.
#[derive(Clone, Copy, Debug, PartialEq, Eq, Structural)]
pub struct SubstrateWeight {
    pub db: RuntimeDbWeight,
}

impl WeightInfo for SubstrateWeight {
    fn submit_slashing_evidence(&self) -> (w: Weight)
        ensures
            w == spec_base_reads_writes(Weight { ref_time: 40_000_000, proof_size: 4_096 }, self.db, 1, 2),
    {
        base_reads_writes(Weight::from_parts(40_000_000, 4_096), self.db, 1, 2)
    }

    fn dispute_slashing(&self) -> (w: Weight)
        ensures
            w == spec_base_reads_writes(Weight { ref_time: 30_000_000, proof_size: 2_048 }, self.db, 1, 1),
    {
        base_reads_writes(Weight::from_parts(30_000_000, 2_048), self.db, 1, 1)
    }

    fn arbitrate_dispute(&self) -> (w: Weight)
        ensures
            w == spec_base_reads_writes(Weight { ref_time: 30_000_000, proof_size: 2_048 }, self.db, 1, 1),
    {
        base_reads_writes(Weight::from_parts(30_000_000, 2_048), self.db, 1, 1)
    }

    fn ratify_dispute(&self) -> (w: Weight)
        ensures
            w == spec_base_reads_writes(Weight { ref_time: 30_000_000, proof_size: 2_048 }, self.db, 1, 1),
    {
        base_reads_writes(Weight::from_parts(30_000_000, 2_048), self.db, 1, 1)
    }

    fn finalize_slash(&self) -> (w: Weight)
        ensures
            w == spec_base_reads_writes(Weight { ref_time: 30_000_000, proof_size: 2_048 }, self.db, 1, 1),
    {
        base_reads_writes(Weight::from_parts(30_000_000, 2_048), self.db, 1, 1)
    }
}

/// Weights without database costs.
impl WeightInfo for () {
    fn submit_slashing_evidence(&self) -> (w: Weight)
        ensures
            w == (Weight { ref_time: 40_000_000, proof_size: 4_096 }),
    {
        Weight::from_parts(40_000_000, 4_096)
    }

    fn dispute_slashing(&self) -> (w: Weight)
        ensures
            w == (Weight { ref_time: 30_000_000, proof_size: 2_048 }),
    {
        Weight::from_parts(30_000_000, 2_048)
    }

    fn arbitrate_dispute(&self) -> (w: Weight)
        ensures
            w == (Weight { ref_time: 30_000_000, proof_size: 2_048 }),
    {
        Weight::from_parts(30_000_000, 2_048)
    }

    fn ratify_dispute(&self) -> (w: Weight)
        ensures
            w == (Weight { ref_time: 30_000_000, proof_size: 2_048 }),
    {
        Weight::from_parts(30_000_000, 2_048)
    }

    fn finalize_slash(&self) -> (w: Weight)
        ensures
            w == (Weight { ref_time: 30_000_000, proof_size: 2_048 }),
    {
        Weight::from_parts(30_000_000, 2_048)
    }
}

} // verus!
