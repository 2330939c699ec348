//! Treasury extension: council members propose spends, and a proposal is
//! executed once a threshold of distinct council members has approved it.

use vstd::prelude::*;

use crate::keymap::KeyMap;
use crate::primitives::{sat_add_u64, AccountId, BlockNumber, Origin};

pub mod weights;

verus! {

pub type Amount = u128;

/// Maximum council size; bounds a proposal's approvals.
pub const MAX_COUNCIL: u32 = 32;

#[derive(Clone, Copy, Debug, PartialEq, Eq, Structural)]
pub enum ProposalState {
    Pending,
    Executed,
    Rejected,
}

/// A spend proposal.
#[derive(Clone, Debug)]
pub struct Proposal {
    pub proposer: AccountId,
    pub beneficiary: AccountId,
    pub amount: Amount,
    /// Council members that approved, in approval order.
    pub approvals: Vec<AccountId>,
    pub state: ProposalState,
    pub created_at: BlockNumber,
}

/// Runtime configuration of the pallet.
pub struct Config {
    /// The accounts that may propose and approve spends.
    pub council: Vec<AccountId>,
}

#[derive(Clone, Copy, Debug, PartialEq, Eq, Structural)]
pub enum Event {
    Proposed { proposal_id: u64, proposer: AccountId, beneficiary: AccountId, amount: Amount },
    Approved { proposal_id: u64, approver: AccountId, approvals: u32 },
    Executed { proposal_id: u64 },
}

#[derive(Clone, Copy, Debug, PartialEq, Eq, Structural)]
pub enum Error {
    /// The origin is not the one the call requires.
    BadOrigin,
    UnknownProposal,
    BadState,
    BelowThreshold,
    NotCouncilMember,
    AlreadyApproved,
    TooManyApprovals,
    ThresholdNotSet,
}

/// The pallet's storage.
pub struct Pallet {
    pub config: Config,
    pub next_proposal_id: u64,
    pub proposals: KeyMap<u64, Proposal>,
    /// Approvals needed to execute; 0 means not set.
    pub threshold: u32,
}

/// A copy of a list of accounts.
fn copy_accounts(v: &Vec<AccountId>) -> (r: Vec<AccountId>)
    ensures
        r@ == v@,
{
    let mut r: Vec<AccountId> = Vec::new();
    let mut i: usize = 0;
    while i < v.len()
        invariant
            i <= v@.len(),
            r@ == v@.take(i as int),
        decreases v@.len() - i,
    {
        r.push(v[i]);
        proof {
            assert(v@.take(i + 1) =~= v@.take(i as int).push(v@[i as int]));
        }
        i += 1;
    }
    proof {
        assert(v@.take(v@.len() as int) =~= v@);
    }
    r
}

/// Whether `who` occurs in `v`.
fn account_in(v: &Vec<AccountId>, who: AccountId) -> (b: bool)
    ensures
        b == v@.contains(who),
{
    let mut i: usize = 0;
    while i < v.len()
        invariant
            i <= v@.len(),
            forall|j: int| 0 <= j < i ==> v@[j] != who,
        decreases v@.len() - i,
    {
        if v[i] == who {
            proof {
                assert(v@[i as int] == who);
            }
            return true;
        }
        i += 1;
    }
    false
}

impl Pallet {
    /// Proposals are well formed: approvals are distinct council-size-bounded
    /// lists.
    pub open spec fn wf(&self) -> bool {
        &&& self.proposals.wf()
        &&& forall|id: u64| #[trigger]
            self.proposals@.contains_key(id) ==> self.proposals@[id].approvals@.no_duplicates()
                && self.proposals@[id].approvals@.len() <= MAX_COUNCIL
    }

    pub open spec fn is_council(&self, who: AccountId) -> bool {
        self.config.council@.contains(who)
    }

    /// Every approval of every proposal was given by a council member.
    pub open spec fn approvals_from_council(&self) -> bool {
        forall|id: u64, j: int| #[trigger]
            self.proposals@.contains_key(id) && 0 <= j < self.proposals@[id].approvals@.len()
                ==> self.is_council(#[trigger] self.proposals@[id].approvals@[j])
    }

    pub fn new(config: Config) -> (p: Pallet)
        ensures
            p.approvals_from_council(),
            p.wf(),
            p.config == config,
            p.next_proposal_id == 0,
            p.threshold == 0,
            p.proposals@ == Map::<u64, Proposal>::empty(),
    {
        Pallet { config, next_proposal_id: 0, proposals: KeyMap::new(), threshold: 0 }
    }

    /// Sets the approval threshold.
    pub fn set_threshold(&mut self, threshold: u32)
        requires
            old(self).wf(),
        ensures
            old(self).approvals_from_council() ==> final(self).approvals_from_council(),
            final(self).wf(),
            final(self).threshold == threshold,
            final(self).proposals == old(self).proposals,
            final(self).next_proposal_id == old(self).next_proposal_id,
            final(self).config == old(self).config,
    {
        self.threshold = threshold;
    }

    /// A proposal's state.
    pub fn proposal_state(&self, id: u64) -> (r: Option<ProposalState>)
        requires
            self.wf(),
        ensures
            r == if self.proposals@.contains_key(id) {
                Some(self.proposals@[id].state)
            } else {
                None::<ProposalState>
            },
    {
        match self.proposals.get(&id) {
            Some(p) => Some(p.state),
            None => None,
        }
    }

    /// A council member proposes paying `amount` to `beneficiary`.
    pub fn propose_spend(&mut self, origin: Origin, beneficiary: AccountId, amount: Amount, now: BlockNumber) -> (r: Result<
        Event,
        Error,
    >)
        requires
            old(self).wf(),
        ensures
            old(self).approvals_from_council() ==> final(self).approvals_from_council(),
            final(self).wf(),
            final(self).config == old(self).config,
            final(self).threshold == old(self).threshold,
            r is Err ==> *final(self) == *old(self),
            match origin {
                Origin::Signed(who) => if !old(self).is_council(who) {
                    r == Err::<Event, Error>(Error::NotCouncilMember)
                } else {
                    let id = old(self).next_proposal_id;
                    &&& r == Ok::<Event, Error>(
                        Event::Proposed { proposal_id: id, proposer: who, beneficiary, amount },
                    )
                    &&& final(self).next_proposal_id == sat_add_u64(id, 1)
                    &&& final(self).proposals@.dom() == old(self).proposals@.dom().insert(id)
                    &&& forall|k: u64| k != id && #[trigger] old(self).proposals@.contains_key(k)
                        ==> final(self).proposals@[k] == old(self).proposals@[k]
                    &&& final(self).proposals@[id].proposer == who
                    &&& final(self).proposals@[id].beneficiary == beneficiary
                    &&& final(self).proposals@[id].amount == amount
                    &&& final(self).proposals@[id].approvals@ == Seq::<AccountId>::empty()
                    &&& final(self).proposals@[id].state == ProposalState::Pending
                    &&& final(self).proposals@[id].created_at == now
                },
                _ => r == Err::<Event, Error>(Error::BadOrigin),
            },
    {
        let who = match origin.signer() {
            Some(who) => who,
            None => return Err(Error::BadOrigin),
        };
        if !account_in(&self.config.council, who) {
            return Err(Error::NotCouncilMember);
        }
        let proposal_id = self.next_proposal_id;
        self.next_proposal_id = self.next_proposal_id.saturating_add(1);
        self.proposals.insert(
            proposal_id,
            Proposal {
                proposer: who,
                beneficiary,
                amount,
                approvals: Vec::new(),
                state: ProposalState::Pending,
                created_at: now,
            },
        );
        Ok(Event::Proposed { proposal_id, proposer: who, beneficiary, amount })
    }

    /// A council member approves a pending proposal once; the proposal is
    /// executed when its distinct approvals reach the threshold.
    pub fn execute_spend(&mut self, origin: Origin, proposal_id: u64) -> (r: Result<Vec<Event>, Error>)
        requires
            old(self).wf(),
        ensures
            old(self).approvals_from_council() ==> final(self).approvals_from_council(),
            final(self).wf(),
            final(self).config == old(self).config,
            final(self).threshold == old(self).threshold,
            final(self).next_proposal_id == old(self).next_proposal_id,
            r is Err ==> *final(self) == *old(self),
            match origin {
                Origin::Signed(who) => if !old(self).is_council(who) {
                    r == Err::<Vec<Event>, Error>(Error::NotCouncilMember)
                } else if old(self).threshold == 0 {
                    r == Err::<Vec<Event>, Error>(Error::ThresholdNotSet)
                } else if !old(self).proposals@.contains_key(proposal_id) {
                    r == Err::<Vec<Event>, Error>(Error::UnknownProposal)
                } else {
                    let p = old(self).proposals@[proposal_id];
                    if p.state != ProposalState::Pending {
                        r == Err::<Vec<Event>, Error>(Error::BadState)
                    } else if p.approvals@.contains(who) {
                        r == Err::<Vec<Event>, Error>(Error::AlreadyApproved)
                    } else if p.approvals@.len() >= MAX_COUNCIL {
                        r == Err::<Vec<Event>, Error>(Error::TooManyApprovals)
                    } else {
                        let n = p.approvals@.len() + 1;
                        let executed = n >= old(self).threshold;
                        &&& final(self).proposals@.dom() == old(self).proposals@.dom()
                        &&& forall|k: u64| k != proposal_id && #[trigger] old(self).proposals@.contains_key(k)
                            ==> final(self).proposals@[k] == old(self).proposals@[k]
                        &&& final(self).proposals@[proposal_id].approvals@ == p.approvals@.push(who)
                        &&& final(self).proposals@[proposal_id].state == if executed {
                            ProposalState::Executed
                        } else {
                            ProposalState::Pending
                        }
                        &&& final(self).proposals@[proposal_id].proposer == p.proposer
                        &&& final(self).proposals@[proposal_id].beneficiary == p.beneficiary
                        &&& final(self).proposals@[proposal_id].amount == p.amount
                        &&& final(self).proposals@[proposal_id].created_at == p.created_at
                        &&& match r {
                            Ok(events) => if executed {
                                events@ == seq![
                                    Event::Approved { proposal_id, approver: who, approvals: n as u32 },
                                    Event::Executed { proposal_id },
                                ]
                            } else {
                                events@ == seq![Event::Approved { proposal_id, approver: who, approvals: n as u32 }]
                            },
                            Err(_) => false,
                        }
                    }
                },
                _ => r == Err::<Vec<Event>, Error>(Error::BadOrigin),
            },
    {
        let who = match origin.signer() {
            Some(who) => who,
            None => return Err(Error::BadOrigin),
        };
        if !account_in(&self.config.council, who) {
            return Err(Error::NotCouncilMember);
        }
        let threshold = self.threshold;
        if threshold == 0 {
            return Err(Error::ThresholdNotSet);
        }
        let p = match self.proposals.get(&proposal_id) {
            Some(p) => p,
            None => return Err(Error::UnknownProposal),
        };
        if p.state != ProposalState::Pending {
            return Err(Error::BadState);
        }
        if account_in(&p.approvals, who) {
            return Err(Error::AlreadyApproved);
        }
        if p.approvals.len() >= MAX_COUNCIL as usize {
            return Err(Error::TooManyApprovals);
        }
        let mut approvals = copy_accounts(&p.approvals);
        approvals.push(who);
        let n = approvals.len() as u32;
        let executed = n >= threshold;
        let state = if executed { ProposalState::Executed } else { ProposalState::Pending };
        let updated = Proposal {
            proposer: p.proposer,
            beneficiary: p.beneficiary,
            amount: p.amount,
            approvals,
            state,
            created_at: p.created_at,
        };
        let ghost old_approvals = p.approvals@;
        self.proposals.insert(proposal_id, updated);
        proof {
            assert(old_approvals.push(who).no_duplicates()) by {
                assert forall|i: int, j: int| 0 <= i < old_approvals.len() + 1 && 0 <= j < old_approvals.len() + 1
                    && i != j implies old_approvals.push(who)[i] != old_approvals.push(who)[j] by {
                    if i < old_approvals.len() && j < old_approvals.len() {
                    } else if i == old_approvals.len() {
                        assert(old_approvals[j] == old_approvals.push(who)[j]);
                    } else {
                        assert(old_approvals[i] == old_approvals.push(who)[i]);
                    }
                }
            }
        }
        let mut events: Vec<Event> = Vec::new();
        events.push(Event::Approved { proposal_id, approver: who, approvals: n });
        if executed {
            events.push(Event::Executed { proposal_id });
        }
        proof {
            if executed {
                assert(events@ =~= seq![
                    Event::Approved { proposal_id, approver: who, approvals: n },
                    Event::Executed { proposal_id },
                ]);
            } else {
                assert(events@ =~= seq![Event::Approved { proposal_id, approver: who, approvals: n }]);
            }
        }
        Ok(events)
    }
}

} // verus!
