//! Dispatch weights of the operator stake calls.

use vstd::prelude::*;

use crate::primitives::{RuntimeDbWeight, Weight, base_reads_writes, spec_base_reads_writes};

verus! {

pub trait WeightInfo {
    fn register(&self) -> Weight;

    fn unregister(&self) -> Weight;

    fn heartbeat(&self) -> Weight;

    fn slash(&self) -> Weight;
}

/// Benchmarked weights, priced with the runtime's database weights.
#[derive(Clone, Copy, Debug, PartialEq, Eq, Structural)]
pub struct SubstrateWeight {
    pub db: RuntimeDbWeight,
}

impl WeightInfo for SubstrateWeight {
    fn register(&self) -> (w: Weight)
        ensures
            w == spec_base_reads_writes(Weight { ref_time: 40_000_000, proof_size: 4_096 }, self.db, 3, 3),
    {
        base_reads_writes(Weight::from_parts(40_000_000, 4_096), self.db, 3, 3)
    }

    fn unregister(&self) -> (w: Weight)
        ensures
            w == spec_base_reads_writes(Weight { ref_time: 30_000_000, proof_size: 2_048 }, self.db, 2, 2),
    {
        base_reads_writes(Weight::from_parts(30_000_000, 2_048), self.db, 2, 2)
    }

    fn heartbeat(&self) -> (w: Weight)
        ensures
            w == spec_base_reads_writes(Weight { ref_time: 20_000_000, proof_size: 1_024 }, self.db, 1, 1),
    {
        base_reads_writes(Weight::from_parts(20_000_000, 1_024), self.db, 1, 1)
    }

    fn slash(&self) -> (w: Weight)
        ensures
            w == spec_base_reads_writes(Weight { ref_time: 40_000_000, proof_size: 4_096 }, self.db, 3, 3),
    {
        base_reads_writes(Weight::from_parts(40_000_000, 4_096), self.db, 3, 3)
    }
}

/// Weights without database costs.
impl WeightInfo for () {
    fn register(&self) -> (w: Weight)
        ensures
            w == (Weight { ref_time: 40_000_000, proof_size: 4_096 }),
    {
        Weight::from_parts(40_000_000, 4_096)
    }

    fn unregister(&self) -> (w: Weight)
        ensures
            w == (Weight { ref_time: 30_000_000, proof_size: 2_048 }),
    {
        Weight::from_parts(30_000_000, 2_048)
    }

    fn heartbeat(&self) -> (w: Weight)
        ensures
            w == (Weight { ref_time: 20_000_000, proof_size: 1_024 }),
    {
        Weight::from_parts(20_000_000, 1_024)
    }

    fn slash(&self) -> (w: Weight)
        ensures
            w == (Weight { ref_time: 40_000_000, proof_size: 4_096 }),
    {
        Weight::from_parts(40_000_000, 4_096)
    }
}

} // verus!
