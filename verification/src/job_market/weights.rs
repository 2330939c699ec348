//! Dispatch weights of the job market calls.

use vstd::prelude::*;

use crate::primitives::{RuntimeDbWeight, Weight, base_reads_writes, spec_base_reads_writes};

verus! {

pub trait WeightInfo {
    fn submit_job(&self) -> Weight;

    fn assign(&self) -> Weight;

    fn finalize(&self) -> Weight;

    fn dispute(&self) -> Weight;
}

/// Benchmarked weights, priced with the runtime's database weights.
#[derive(Clone, Copy, Debug, PartialEq, Eq, Structural)]
pub struct SubstrateWeight {
    pub db: RuntimeDbWeight,
}

impl WeightInfo for SubstrateWeight {
    fn submit_job(&self) -> (w: Weight)
        ensures
            w == spec_base_reads_writes(Weight { ref_time: 40_000_000, proof_size: 4_096 }, self.db, 1, 1),
    {
        base_reads_writes(Weight::from_parts(40_000_000, 4_096), self.db, 1, 1)
    }

    fn assign(&self) -> (w: Weight)
        ensures
            w == spec_base_reads_writes(Weight { ref_time: 30_000_000, proof_size: 2_048 }, self.db, 1, 1),
    {
        base_reads_writes(Weight::from_parts(30_000_000, 2_048), self.db, 1, 1)
    }

    fn finalize(&self) -> (w: Weight)
        ensures
            w == spec_base_reads_writes(Weight { ref_time: 30_000_000, proof_size: 2_048 }, self.db, 1, 1),
    {
        base_reads_writes(Weight::from_parts(30_000_000, 2_048), self.db, 1, 1)
    }

    fn dispute(&self) -> (w: Weight)
        ensures
            w == spec_base_reads_writes(Weight { ref_time: 30_000_000, proof_size: 2_048 }, self.db, 1, 1),
    {
        base_reads_writes(Weight::from_parts(30_000_000, 2_048), self.db, 1, 1)
    }
}

/// Weights without database costs.
impl WeightInfo for () {
    fn submit_job(&self) -> (w: Weight)
        ensures
            w == (Weight { ref_time: 40_000_000, proof_size: 4_096 }),
    {
        Weight::from_parts(40_000_000, 4_096)
    }

    fn assign(&self) -> (w: Weight)
        ensures
            w == (Weight { ref_time: 30_000_000, proof_size: 2_048 }),
    {
        Weight::from_parts(30_000_000, 2_048)
    }

    fn finalize(&self) -> (w: Weight)
        ensures
            w == (Weight { ref_time: 30_000_000, proof_size: 2_048 }),
    {
        Weight::from_parts(30_000_000, 2_048)
    }

    fn dispute(&self) -> (w: Weight)
        ensures
            w == (Weight { ref_time: 30_000_000, proof_size: 2_048 }),
    {
        Weight::from_parts(30_000_000, 2_048)
    }
}

} // verus!
