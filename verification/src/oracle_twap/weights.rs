//! Dispatch weights of the oracle price feed calls.

use vstd::prelude::*;

use crate::primitives::{RuntimeDbWeight, Weight, base_reads_writes, spec_base_reads_writes};

verus! {

pub trait WeightInfo {
    fn submit_price(&self) -> Weight;
}

/// Benchmarked weights, priced with the runtime's database weights.
#[derive(Clone, Copy, Debug, PartialEq, Eq, Structural)]
pub struct SubstrateWeight {
    pub db: RuntimeDbWeight,
}

impl WeightInfo for SubstrateWeight {
    fn submit_price(&self) -> (w: Weight)
        ensures
            w == spec_base_reads_writes(Weight { ref_time: 80_000_000, proof_size: 8_192 }, self.db, 2, 2),
    {
        base_reads_writes(Weight::from_parts(80_000_000, 8_192), self.db, 2, 2)
    }
}

/// Weights without database costs.
impl WeightInfo for () {
    fn submit_price(&self) -> (w: Weight)
        ensures
            w == (Weight { ref_time: 80_000_000, proof_size: 8_192 }),
    {
        Weight::from_parts(80_000_000, 8_192)
    }
}

} // verus!
