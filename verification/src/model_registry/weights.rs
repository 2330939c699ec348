//! Dispatch weights of the model registry calls.

use vstd::prelude::*;

use crate::primitives::{RuntimeDbWeight, Weight, base_reads_writes, spec_base_reads_writes};

verus! {

pub trait WeightInfo {
    fn register_base_model(&self) -> Weight;

    fn register_adapter(&self) -> Weight;

    fn deprecate(&self) -> Weight;
}

/// Benchmarked weights, priced with the runtime's database weights.
#[derive(Clone, Copy, Debug, PartialEq, Eq, Structural)]
pub struct SubstrateWeight {
    pub db: RuntimeDbWeight,
}

impl WeightInfo for SubstrateWeight {
    fn register_base_model(&self) -> (w: Weight)
        ensures
            w == spec_base_reads_writes(Weight { ref_time: 40_000_000, proof_size: 4_096 }, self.db, 2, 1),
    {
        base_reads_writes(Weight::from_parts(40_000_000, 4_096), self.db, 2, 1)
    }

    fn register_adapter(&self) -> (w: Weight)
        ensures
            w == spec_base_reads_writes(Weight { ref_time: 40_000_000, proof_size: 4_096 }, self.db, 3, 1),
    {
        base_reads_writes(Weight::from_parts(40_000_000, 4_096), self.db, 3, 1)
    }

    fn deprecate(&self) -> (w: Weight)
        ensures
            w == spec_base_reads_writes(Weight { ref_time: 40_000_000, proof_size: 4_096 }, self.db, 2, 2),
    {
        base_reads_writes(Weight::from_parts(40_000_000, 4_096), self.db, 2, 2)
    }
}

/// Weights without database costs.
impl WeightInfo for () {
    fn register_base_model(&self) -> (w: Weight)
        ensures
            w == (Weight { ref_time: 40_000_000, proof_size: 4_096 }),
    {
        Weight::from_parts(40_000_000, 4_096)
    }

    fn register_adapter(&self) -> (w: Weight)
        ensures
            w == (Weight { ref_time: 40_000_000, proof_size: 4_096 }),
    {
        Weight::from_parts(40_000_000, 4_096)
    }

    fn deprecate(&self) -> (w: Weight)
        ensures
            w == (Weight { ref_time: 40_000_000, proof_size: 4_096 }),
    {
        Weight::from_parts(40_000_000, 4_096)
    }
}

} // verus!
