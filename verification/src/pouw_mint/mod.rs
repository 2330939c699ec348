//! Proof-of-useful-work lane: operators submit cuPOW transcripts (each
//! once), and reward events can be emitted only while the lane is enabled.

use vstd::prelude::*;

use crate::keymap::KeyMap;
use crate::primitives::{AccountId, BlockNumber, Origin, H256};

pub mod weights;

verus! {

#[derive(Clone, Copy, Debug, PartialEq, Eq, Structural)]
pub struct CupowTranscript {
    pub operator: AccountId,
    pub transcript_hash: H256,
    pub submitted_at: BlockNumber,
}

#[derive(Clone, Copy, Debug, PartialEq, Eq, Structural)]
pub enum Event {
    TranscriptSubmitted { operator: AccountId, hash: H256 },
    PouwRewardEmitted { operator: AccountId, amount: u128 },
}

#[derive(Clone, Copy, Debug, PartialEq, Eq, Structural)]
pub enum Error {
    /// The origin is not the one the call requires.
    BadOrigin,
    Disabled,
    DuplicateTranscript,
}

/// The pallet's storage.
pub struct Pallet {
    pub transcripts: KeyMap<H256, CupowTranscript>,
    pub enabled: bool,
}

impl Pallet {
    pub open spec fn wf(&self) -> bool {
        self.transcripts.wf()
    }

    /// Empty storage; the lane starts disabled.
    pub fn new() -> (p: Pallet)
        ensures
            p.wf(),
            p.transcripts@ == Map::<H256, CupowTranscript>::empty(),
            !p.enabled,
    {
        Pallet { transcripts: KeyMap::new(), enabled: false }
    }

    pub fn transcript(&self, hash: &H256) -> (r: Option<CupowTranscript>)
        requires
            self.wf(),
        ensures
            r == if self.transcripts@.contains_key(*hash) {
                Some(self.transcripts@[*hash])
            } else {
                None::<CupowTranscript>
            },
    {
        match self.transcripts.get(hash) {
            Some(t) => Some(*t),
            None => None,
        }
    }

    /// An operator submits a transcript hash not submitted before.
    pub fn submit_cupow_transcript(&mut self, origin: Origin, transcript_hash: H256, now: BlockNumber) -> (r: Result<
        Event,
        Error,
    >)
        requires
            old(self).wf(),
        ensures
            final(self).wf(),
            r is Err ==> *final(self) == *old(self),
            match origin {
                Origin::Signed(who) => if old(self).transcripts@.contains_key(transcript_hash) {
                    r == Err::<Event, Error>(Error::DuplicateTranscript)
                } else {
                    &&& r == Ok::<Event, Error>(Event::TranscriptSubmitted { operator: who, hash: transcript_hash })
                    &&& final(self).transcripts@ == old(self).transcripts@.insert(
                        transcript_hash,
                        CupowTranscript { operator: who, transcript_hash, submitted_at: now },
                    )
                    &&& final(self).enabled == old(self).enabled
                },
                _ => r == Err::<Event, Error>(Error::BadOrigin),
            },
    {
        let who = match origin.signer() {
            Some(who) => who,
            None => return Err(Error::BadOrigin),
        };
        if self.transcripts.contains_key(&transcript_hash) {
            return Err(Error::DuplicateTranscript);
        }
        self.transcripts.insert(transcript_hash, CupowTranscript { operator: who, transcript_hash, submitted_at: now });
        Ok(Event::TranscriptSubmitted { operator: who, hash: transcript_hash })
    }

    /// The reward origin (root) emits a reward event while the lane is
    /// enabled.
    pub fn emit_pouw_reward(&self, origin: Origin, operator: AccountId, amount: u128) -> (r: Result<Event, Error>)
        ensures
            r == if !(origin is Root) {
                Err::<Event, Error>(Error::BadOrigin)
            } else if !self.enabled {
                Err(Error::Disabled)
            } else {
                Ok(Event::PouwRewardEmitted { operator, amount })
            },
    {
        if !origin.is_root() {
            return Err(Error::BadOrigin);
        }
        if !self.enabled {
            return Err(Error::Disabled);
        }
        Ok(Event::PouwRewardEmitted { operator, amount })
    }
}

} // verus!
