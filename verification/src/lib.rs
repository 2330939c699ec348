use vstd::prelude::*;

pub mod keymap;
pub mod primitives;
pub mod sorting;
pub mod sums;
pub mod encoding;
pub mod yuma_consensus;
pub mod operator_stake;
pub mod slashing;
pub mod bme;
pub mod treasury_ext;
pub mod nonce_vault;
pub mod oracle_twap;
pub mod job_market;
pub mod model_registry;
pub mod attestation_registry;
pub mod pouw_mint;

verus! {

} // verus!
