//! Primitive types shared by all pallets: accounts, hashes, origins,
//! saturating arithmetic and dispatch weights.

use vstd::prelude::*;

use crate::keymap::KeyEq;

verus! {

/// Account identifier.
pub type AccountId = u64;

/// Block number.
pub type BlockNumber = u64;

/// Token balance.
pub type Balance = u128;

/// Basis-point denominator (10_000 = 100%).
pub const BPS: u128 = 10_000;

/// A 256-bit hash, held as four 64-bit words; `w0` holds the first eight
/// bytes read big-endian, `w3` the last eight.
#[derive(Clone, Copy, Debug, PartialEq, Eq, Structural)]
pub struct H256 {
    pub w0: u64,
    pub w1: u64,
    pub w2: u64,
    pub w3: u64,
}

/// The 64-bit word whose eight bytes all equal `b`.
pub open spec fn repeated_word(b: u8) -> u64 {
    (b as u64 * 0x0101_0101_0101_0101u64) as u64
}

impl H256 {
    /// The hash whose 32 bytes all equal `b`.
    pub fn repeat_byte(b: u8) -> (h: H256)
        ensures
            h.w0 == repeated_word(b),
            h.w1 == repeated_word(b),
            h.w2 == repeated_word(b),
            h.w3 == repeated_word(b),
    {
        assert(b as u64 * 0x0101_0101_0101_0101u64 <= u64::MAX) by (nonlinear_arith)
            requires b <= 255;
        let w: u64 = (b as u64) * 0x0101_0101_0101_0101u64;
        H256 { w0: w, w1: w, w2: w, w3: w }
    }

    /// The hash whose last eight bytes are `x` big-endian and whose other
    /// bytes are zero.
    pub fn from_low_u64_be(x: u64) -> (h: H256)
        ensures
            h == (H256 { w0: 0, w1: 0, w2: 0, w3: x }),
    {
        H256 { w0: 0, w1: 0, w2: 0, w3: x }
    }

    /// The all-zero hash.
    pub fn zero() -> (h: H256)
        ensures
            h == (H256 { w0: 0, w1: 0, w2: 0, w3: 0 }),
    {
        H256 { w0: 0, w1: 0, w2: 0, w3: 0 }
    }
}

impl KeyEq for H256 {
    fn key_eq(&self, other: &Self) -> (b: bool) {
        *self == *other
    }

    fn copy_key(&self) -> (r: Self) {
        *self
    }
}

/// The origin of a dispatched call.
#[derive(Clone, Copy, Debug, PartialEq, Eq, Structural)]
pub enum Origin {
    /// The privileged root origin (governance, sudo).
    Root,
    /// A call signed by an account.
    Signed(AccountId),
    /// An unsigned call.
    Unsigned,
}

impl Origin {
    /// The signer of a signed origin.
    pub fn signer(&self) -> (r: Option<AccountId>)
        ensures
            match *self {
                Origin::Signed(who) => r == Some(who),
                _ => r.is_none(),
            },
    {
        match self {
            Origin::Signed(who) => Some(*who),
            _ => None,
        }
    }

    /// Whether this is the root origin, the origin that the privileged calls
    /// of every pallet are configured to require.
    pub fn is_root(&self) -> (b: bool)
        ensures
            b == (*self is Root),
    {
        match self {
            Origin::Root => true,
            _ => false,
        }
    }
}

// ---------------------------------------------------------------------------
// Saturating arithmetic
// ---------------------------------------------------------------------------

pub open spec fn sat_add_u128(a: u128, b: u128) -> u128 {
    if a + b > u128::MAX { u128::MAX } else { (a + b) as u128 }
}

pub open spec fn sat_sub_u128(a: u128, b: u128) -> u128 {
    if a < b { 0 } else { (a - b) as u128 }
}

pub open spec fn sat_mul_u128(a: u128, b: u128) -> u128 {
    if a * b > u128::MAX { u128::MAX } else { (a * b) as u128 }
}

pub open spec fn sat_add_u64(a: u64, b: u64) -> u64 {
    if a + b > u64::MAX { u64::MAX } else { (a + b) as u64 }
}

pub open spec fn sat_sub_u64(a: u64, b: u64) -> u64 {
    if a < b { 0 } else { (a - b) as u64 }
}

pub open spec fn sat_mul_u64(a: u64, b: u64) -> u64 {
    if a * b > u64::MAX { u64::MAX } else { (a * b) as u64 }
}

pub open spec fn sat_add_u32(a: u32, b: u32) -> u32 {
    if a + b > u32::MAX { u32::MAX } else { (a + b) as u32 }
}

pub open spec fn sat_sub_u32(a: u32, b: u32) -> u32 {
    if a < b { 0 } else { (a - b) as u32 }
}

pub fn saturating_mul_u128(a: u128, b: u128) -> (r: u128)
    ensures
        r == sat_mul_u128(a, b),
{
    match a.checked_mul(b) {
        Some(v) => v,
        None => u128::MAX,
    }
}

pub fn saturating_mul_u64(a: u64, b: u64) -> (r: u64)
    ensures
        r == sat_mul_u64(a, b),
{
    match a.checked_mul(b) {
        Some(v) => v,
        None => u64::MAX,
    }
}

// ---------------------------------------------------------------------------
// Dispatch weights
// ---------------------------------------------------------------------------

/// Execution weight of a call: reference time and proof size.
#[derive(Clone, Copy, Debug, PartialEq, Eq, Structural)]
pub struct Weight {
    pub ref_time: u64,
    pub proof_size: u64,
}

impl Weight {
    pub fn from_parts(ref_time: u64, proof_size: u64) -> (w: Weight)
        ensures
            w == (Weight { ref_time, proof_size }),
    {
        Weight { ref_time, proof_size }
    }

    pub fn zero() -> (w: Weight)
        ensures
            w == (Weight { ref_time: 0, proof_size: 0 }),
    {
        Weight { ref_time: 0, proof_size: 0 }
    }

    pub open spec fn spec_saturating_add(self, rhs: Weight) -> Weight {
        Weight {
            ref_time: sat_add_u64(self.ref_time, rhs.ref_time),
            proof_size: sat_add_u64(self.proof_size, rhs.proof_size),
        }
    }

    /// Component-wise saturating addition.
    pub fn saturating_add(self, rhs: Weight) -> (w: Weight)
        ensures
            w == self.spec_saturating_add(rhs),
    {
        Weight {
            ref_time: self.ref_time.saturating_add(rhs.ref_time),
            proof_size: self.proof_size.saturating_add(rhs.proof_size),
        }
    }
}

/// Weight of one database read and of one database write.
#[derive(Clone, Copy, Debug, PartialEq, Eq, Structural)]
pub struct RuntimeDbWeight {
    pub read: u64,
    pub write: u64,
}

impl RuntimeDbWeight {
    pub open spec fn spec_reads(self, r: u64) -> Weight {
        Weight { ref_time: sat_mul_u64(self.read, r), proof_size: 0 }
    }

    pub open spec fn spec_writes(self, w: u64) -> Weight {
        Weight { ref_time: sat_mul_u64(self.write, w), proof_size: 0 }
    }

    pub open spec fn spec_reads_writes(self, r: u64, w: u64) -> Weight {
        Weight {
            ref_time: sat_add_u64(sat_mul_u64(self.read, r), sat_mul_u64(self.write, w)),
            proof_size: 0,
        }
    }

    /// Weight of `r` reads.
    pub fn reads(self, r: u64) -> (w: Weight)
        ensures
            w == self.spec_reads(r),
    {
        Weight { ref_time: saturating_mul_u64(self.read, r), proof_size: 0 }
    }

    /// Weight of `w` writes.
    pub fn writes(self, w: u64) -> (r: Weight)
        ensures
            r == self.spec_writes(w),
    {
        Weight { ref_time: saturating_mul_u64(self.write, w), proof_size: 0 }
    }

    /// Weight of `r` reads and `w` writes.
    pub fn reads_writes(self, r: u64, w: u64) -> (res: Weight)
        ensures
            res == self.spec_reads_writes(r, w),
    {
        let read_weight = saturating_mul_u64(self.read, r);
        let write_weight = saturating_mul_u64(self.write, w);
        Weight { ref_time: read_weight.saturating_add(write_weight), proof_size: 0 }
    }
}

/// `base + reads(r) + writes(w)`, the shape of every benchmarked weight.
pub open spec fn spec_base_reads_writes(base: Weight, db: RuntimeDbWeight, r: u64, w: u64) -> Weight {
    base.spec_saturating_add(db.spec_reads(r)).spec_saturating_add(db.spec_writes(w))
}

pub fn base_reads_writes(base: Weight, db: RuntimeDbWeight, r: u64, w: u64) -> (res: Weight)
    ensures
        res == spec_base_reads_writes(base, db, r, w),
{
    base.saturating_add(db.reads(r)).saturating_add(db.writes(w))
}

} // verus!
