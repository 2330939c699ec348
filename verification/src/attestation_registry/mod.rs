//! Attestation registry: operators' attestation summaries, revocable by the
//! admin, and a revocation list per kind of target.

use vstd::prelude::*;

use crate::keymap::{KeyEq, KeyMap};
use crate::primitives::{AccountId, BlockNumber, Origin, H256};

pub mod weights;

verus! {

#[derive(Clone, Copy, Debug, PartialEq, Eq, Structural)]
pub enum CrlKind {
    FirmwareHash,
    DeviceCert,
    ModelHash,
    VendorPkiChain,
}

impl KeyEq for (CrlKind, H256) {
    fn key_eq(&self, other: &Self) -> (b: bool) {
        self.0 == other.0 && self.1 == other.1
    }

    fn copy_key(&self) -> (r: Self) {
        (self.0, self.1)
    }
}

/// An attestation summary.
#[derive(Clone, Copy, Debug, PartialEq, Eq, Structural)]
pub struct OnChainAttestation {
    pub operator: AccountId,
    pub report_hash: H256,
    pub gpu_uuid: H256,
    /// Vendor flags: 0x1 NVIDIA, 0x2 Intel TDX, 0x4 AMD SEV, 0x8 RIM.
    pub vendor_set: u8,
    pub measured_vm_bundle: H256,
    pub expires_at: BlockNumber,
    pub revoked: bool,
}

#[derive(Clone, Copy, Debug, PartialEq, Eq, Structural)]
pub enum Event {
    Submitted { operator: AccountId, report_hash: H256 },
    Revoked { report_hash: H256 },
    CrlAdded { kind: CrlKind, target: H256 },
}

#[derive(Clone, Copy, Debug, PartialEq, Eq, Structural)]
pub enum Error {
    /// The origin is not the one the call requires.
    BadOrigin,
    AlreadySubmitted,
    UnknownReport,
}

/// The pallet's storage.
pub struct Pallet {
    /// Attestations by report hash.
    pub attestations: KeyMap<H256, OnChainAttestation>,
    /// `(kind, target)` to the block the revocation was added at.
    pub crl: KeyMap<(CrlKind, H256), BlockNumber>,
}

impl Pallet {
    pub open spec fn wf(&self) -> bool {
        &&& self.attestations.wf()
        &&& self.crl.wf()
    }

    pub fn new() -> (p: Pallet)
        ensures
            p.wf(),
            p.attestations@ == Map::<H256, OnChainAttestation>::empty(),
            p.crl@ == Map::<(CrlKind, H256), BlockNumber>::empty(),
    {
        Pallet { attestations: KeyMap::new(), crl: KeyMap::new() }
    }

    pub fn attestation(&self, report_hash: &H256) -> (r: Option<OnChainAttestation>)
        requires
            self.wf(),
        ensures
            r == if self.attestations@.contains_key(*report_hash) {
                Some(self.attestations@[*report_hash])
            } else {
                None::<OnChainAttestation>
            },
    {
        match self.attestations.get(report_hash) {
            Some(a) => Some(*a),
            None => None,
        }
    }

    /// An operator submits an attestation summary under a fresh report hash.
    pub fn submit(
        &mut self,
        origin: Origin,
        report_hash: H256,
        gpu_uuid: H256,
        vendor_set: u8,
        measured_vm_bundle: H256,
        expires_at: BlockNumber,
    ) -> (r: Result<Event, Error>)
        requires
            old(self).wf(),
        ensures
            final(self).wf(),
            r is Err ==> *final(self) == *old(self),
            match origin {
                Origin::Signed(who) => if old(self).attestations@.contains_key(report_hash) {
                    r == Err::<Event, Error>(Error::AlreadySubmitted)
                } else {
                    &&& r == Ok::<Event, Error>(Event::Submitted { operator: who, report_hash })
                    &&& final(self).attestations@ == old(self).attestations@.insert(
                        report_hash,
                        OnChainAttestation {
                            operator: who,
                            report_hash,
                            gpu_uuid,
                            vendor_set,
                            measured_vm_bundle,
                            expires_at,
                            revoked: false,
                        },
                    )
                    &&& final(self).crl == old(self).crl
                },
                _ => r == Err::<Event, Error>(Error::BadOrigin),
            },
    {
        let who = match origin.signer() {
            Some(who) => who,
            None => return Err(Error::BadOrigin),
        };
        if self.attestations.contains_key(&report_hash) {
            return Err(Error::AlreadySubmitted);
        }
        self.attestations.insert(
            report_hash,
            OnChainAttestation {
                operator: who,
                report_hash,
                gpu_uuid,
                vendor_set,
                measured_vm_bundle,
                expires_at,
                revoked: false,
            },
        );
        Ok(Event::Submitted { operator: who, report_hash })
    }

    /// The admin (root) revokes an attestation.
    pub fn revoke(&mut self, origin: Origin, report_hash: H256) -> (r: Result<Event, Error>)
        requires
            old(self).wf(),
        ensures
            final(self).wf(),
            r is Err ==> *final(self) == *old(self),
            r == if !(origin is Root) {
                Err::<Event, Error>(Error::BadOrigin)
            } else if !old(self).attestations@.contains_key(report_hash) {
                Err(Error::UnknownReport)
            } else {
                Ok(Event::Revoked { report_hash })
            },
            r is Ok ==> final(self).attestations@ == old(self).attestations@.insert(
                report_hash,
                OnChainAttestation { revoked: true, ..old(self).attestations@[report_hash] },
            ) && final(self).crl == old(self).crl,
    {
        if !origin.is_root() {
            return Err(Error::BadOrigin);
        }
        let a = match self.attestations.get(&report_hash) {
            Some(a) => *a,
            None => return Err(Error::UnknownReport),
        };
        self.attestations.insert(report_hash, OnChainAttestation { revoked: true, ..a });
        Ok(Event::Revoked { report_hash })
    }

    /// The admin (root) adds a target to the revocation list.
    pub fn add_to_crl(&mut self, origin: Origin, kind: CrlKind, target: H256, now: BlockNumber) -> (r: Result<
        Event,
        Error,
    >)
        requires
            old(self).wf(),
        ensures
            final(self).wf(),
            !(origin is Root) ==> r == Err::<Event, Error>(Error::BadOrigin) && *final(self) == *old(self),
            origin is Root ==> r == Ok::<Event, Error>(Event::CrlAdded { kind, target }) && final(self).crl@
                == old(self).crl@.insert((kind, target), now) && final(self).attestations
                == old(self).attestations,
    {
        if !origin.is_root() {
            return Err(Error::BadOrigin);
        }
        self.crl.insert((kind, target), now);
        Ok(Event::CrlAdded { kind, target })
    }

    /// Whether a target of a kind is on the revocation list.
    pub fn is_revoked(&self, kind: CrlKind, target: H256) -> (b: bool)
        requires
            self.wf(),
        ensures
            b == self.crl@.contains_key((kind, target)),
    {
        self.crl.contains_key(&(kind, target))
    }
}

} // verus!
