//! Dispatch weights of the Yuma consensus calls.

use vstd::prelude::*;

use crate::primitives::{
    base_reads_writes, sat_add_u64, sat_mul_u64, saturating_mul_u64, spec_base_reads_writes,
    RuntimeDbWeight, Weight,
};

verus! {

pub trait WeightInfo {
    fn submit_weights(&self) -> Weight;

    fn compute_epoch_incentives(&self, max_validators: u32, max_vector_len: u32) -> Weight
        requires
            1 + max_validators + 2 * (max_validators * max_vector_len) <= u64::MAX,
    ;

    fn add_validator(&self, max_validators: u32) -> Weight;

    fn remove_validator(&self) -> Weight;

    fn update_validator_stake(&self, max_validators: u32) -> Weight;

    fn rotate_permits(&self, max_validators: u32) -> Weight;
}

/// Benchmarked weights, priced with the runtime's database weights.
#[derive(Clone, Copy, Debug, PartialEq, Eq, Structural)]
pub struct SubstrateWeight {
    pub db: RuntimeDbWeight,
}

/// Execution time of `compute_epoch_incentives` before database access.
pub open spec fn compute_ref_time(max_validators: u32, max_vector_len: u32) -> u64 {
    let inner_ops = sat_mul_u64(max_validators as u64, max_vector_len as u64);
    sat_add_u64(500_000_000, sat_mul_u64(inner_ops, 200_000))
}

/// A base execution time plus a per-validator cost.
pub open spec fn per_validator_ref_time(base: u64, max_validators: u32, per_validator: u64) -> u64 {
    sat_add_u64(base, sat_mul_u64(max_validators as u64, per_validator))
}

fn compute_ref_time_exec(max_validators: u32, max_vector_len: u32) -> (r: (u64, u64))
    ensures
        r.0 == compute_ref_time(max_validators, max_vector_len),
        r.1 == sat_mul_u64(max_validators as u64, max_vector_len as u64),
{
    let inner_ops = saturating_mul_u64(max_validators as u64, max_vector_len as u64);
    (500_000_000u64.saturating_add(saturating_mul_u64(inner_ops, 200_000)), inner_ops)
}

fn per_validator_ref_time_exec(base: u64, max_validators: u32, per_validator: u64) -> (r: u64)
    ensures
        r == per_validator_ref_time(base, max_validators, per_validator),
{
    base.saturating_add(saturating_mul_u64(max_validators as u64, per_validator))
}

impl WeightInfo for SubstrateWeight {
    fn submit_weights(&self) -> (w: Weight)
        ensures
            w == spec_base_reads_writes(Weight { ref_time: 80_000_000, proof_size: 16_384 }, self.db, 3, 1),
    {
        base_reads_writes(Weight::from_parts(80_000_000, 16_384), self.db, 3, 1)
    }

    fn compute_epoch_incentives(&self, max_validators: u32, max_vector_len: u32) -> (w: Weight)
        ensures
            ({
                let inner_ops = (max_validators * max_vector_len) as u64;
                w == spec_base_reads_writes(
                    Weight { ref_time: compute_ref_time(max_validators, max_vector_len), proof_size: 65_536 },
                    self.db,
                    (1 + max_validators + inner_ops + inner_ops) as u64,
                    (1 + inner_ops + inner_ops) as u64,
                )
            }),
    {
        assert(max_validators * max_vector_len <= u64::MAX) by (nonlinear_arith)
            requires
                max_validators <= u32::MAX,
                max_vector_len <= u32::MAX,
        ;
        let (ref_time, inner_ops) = compute_ref_time_exec(max_validators, max_vector_len);
        assert(inner_ops == max_validators * max_vector_len);
        base_reads_writes(
            Weight::from_parts(ref_time, 65_536),
            self.db,
            1 + max_validators as u64 + inner_ops + inner_ops,
            1 + inner_ops + inner_ops,
        )
    }

    fn add_validator(&self, max_validators: u32) -> (w: Weight)
        ensures
            w == spec_base_reads_writes(
                Weight { ref_time: per_validator_ref_time(50_000_000, max_validators, 25_000), proof_size: 4096 },
                self.db,
                (12 + max_validators) as u64,
                6,
            ),
    {
        base_reads_writes(
            Weight::from_parts(per_validator_ref_time_exec(50_000_000, max_validators, 25_000), 4096),
            self.db,
            12 + max_validators as u64,
            6,
        )
    }

    fn remove_validator(&self) -> (w: Weight)
        ensures
            w == spec_base_reads_writes(Weight { ref_time: 50_000_000, proof_size: 4096 }, self.db, 8, 7),
    {
        base_reads_writes(Weight::from_parts(50_000_000, 4096), self.db, 8, 7)
    }

    fn update_validator_stake(&self, max_validators: u32) -> (w: Weight)
        ensures
            w == spec_base_reads_writes(
                Weight { ref_time: per_validator_ref_time(60_000_000, max_validators, 25_000), proof_size: 4096 },
                self.db,
                (16 + max_validators) as u64,
                8,
            ),
    {
        base_reads_writes(
            Weight::from_parts(per_validator_ref_time_exec(60_000_000, max_validators, 25_000), 4096),
            self.db,
            16 + max_validators as u64,
            8,
        )
    }

    fn rotate_permits(&self, max_validators: u32) -> (w: Weight)
        ensures
            w == spec_base_reads_writes(
                Weight { ref_time: per_validator_ref_time(80_000_000, max_validators, 75_000), proof_size: 8192 },
                self.db,
                sat_add_u64(sat_mul_u64(max_validators as u64, 3), 2),
                sat_add_u64(sat_mul_u64(max_validators as u64, 4), 2),
            ),
    {
        let reads = saturating_mul_u64(max_validators as u64, 3).saturating_add(2);
        let writes = saturating_mul_u64(max_validators as u64, 4).saturating_add(2);
        base_reads_writes(
            Weight::from_parts(per_validator_ref_time_exec(80_000_000, max_validators, 75_000), 8192),
            self.db,
            reads,
            writes,
        )
    }
}

/// Weights without database costs.
impl WeightInfo for () {
    fn submit_weights(&self) -> (w: Weight)
        ensures
            w == (Weight { ref_time: 80_000_000, proof_size: 16_384 }),
    {
        Weight::from_parts(80_000_000, 16_384)
    }

    fn compute_epoch_incentives(&self, max_validators: u32, max_vector_len: u32) -> (w: Weight)
        ensures
            w == (Weight { ref_time: compute_ref_time(max_validators, max_vector_len), proof_size: 65_536 }),
    {
        let (ref_time, _inner_ops) = compute_ref_time_exec(max_validators, max_vector_len);
        Weight::from_parts(ref_time, 65_536)
    }

    fn add_validator(&self, max_validators: u32) -> (w: Weight)
        ensures
            w == (Weight { ref_time: per_validator_ref_time(50_000_000, max_validators, 25_000), proof_size: 4096 }),
    {
        Weight::from_parts(per_validator_ref_time_exec(50_000_000, max_validators, 25_000), 4096)
    }

    fn remove_validator(&self) -> (w: Weight)
        ensures
            w == (Weight { ref_time: 50_000_000, proof_size: 4096 }),
    {
        Weight::from_parts(50_000_000, 4096)
    }

    fn update_validator_stake(&self, max_validators: u32) -> (w: Weight)
        ensures
            w == (Weight { ref_time: per_validator_ref_time(60_000_000, max_validators, 25_000), proof_size: 4096 }),
    {
        Weight::from_parts(per_validator_ref_time_exec(60_000_000, max_validators, 25_000), 4096)
    }

    fn rotate_permits(&self, max_validators: u32) -> (w: Weight)
        ensures
            w == (Weight { ref_time: per_validator_ref_time(80_000_000, max_validators, 75_000), proof_size: 8192 }),
    {
        Weight::from_parts(per_validator_ref_time_exec(80_000_000, max_validators, 75_000), 8192)
    }
}

} // verus!
