//! Slashing: evidence, dispute, arbitration and ratification of slashes
//! against operators.
//!
//! A slash moves `Pending -> Finalized` once its dispute window has passed
//! undisputed, or `Pending -> Disputed -> Arbitrated -> Ratified ->
//! Finalized` when the panel upholds it; a ratification that overturns it
//! finalizes it at once without burning stake. Evidence is accepted against
//! any account. Opening a slash freezes the operator when it is registered;
//! finalizing releases that freeze, burning the fault's severity share of
//! the stake unless the slash was overturned. Arbiter votes and
//! ratification decisions are recorded per slash.

use vstd::prelude::*;

use crate::keymap::KeyMap;
use crate::operator_stake::{self, bps_of, freezes_kept, CurrencyCall, CurrencyHandle, Operator, ReservableCurrency};
use crate::primitives::{sat_add_u32, sat_add_u64, sat_sub_u64, sat_sub_u128, sat_sub_u32, AccountId, Balance, BlockNumber, Origin, H256};

pub mod weights;

verus! {

/// Fault codes and their base severities.
#[derive(Clone, Copy, Debug, PartialEq, Eq, Structural)]
pub enum FaultCode {
    WrongModel,
    WrongResponse,
    LogProbDrift,
    CacheReplay,
    QuantizationSwap,
    KernelPackMismatch,
    DeviceCertCollision,
    HeartbeatMiss,
    AttestationStale,
    SanctionsHit,
    ValidatorCollusion,
    FakeBurn,
    BatchOvercommit,
}

/// The share of stake a fault forfeits, in basis points.
pub open spec fn spec_base_severity_bps(f: FaultCode) -> u16 {
    match f {
        FaultCode::WrongModel | FaultCode::QuantizationSwap | FaultCode::ValidatorCollusion
        | FaultCode::BatchOvercommit => 1000,
        FaultCode::WrongResponse | FaultCode::CacheReplay => 500,
        FaultCode::LogProbDrift | FaultCode::AttestationStale => 200,
        FaultCode::KernelPackMismatch => 50,
        FaultCode::DeviceCertCollision | FaultCode::SanctionsHit => 10_000,
        FaultCode::FakeBurn => 5000,
        FaultCode::HeartbeatMiss => 0,
    }
}

/// Law: the severity of each fault, in basis points of stake, is the
/// fault table: a wrong model, quantization swap, validator collusion or
/// batch overcommit forfeits 10%; a wrong response or cache replay 5%; a
/// log-prob drift or stale attestation 2%; a kernel-pack mismatch 0.5%; a
/// device-certificate collision or sanctions hit all of it; a fake burn
/// half; a missed heartbeat nothing.
pub proof fn lemma_severity_table()
    ensures
        spec_base_severity_bps(FaultCode::WrongModel) == 1000,
        spec_base_severity_bps(FaultCode::QuantizationSwap) == 1000,
        spec_base_severity_bps(FaultCode::ValidatorCollusion) == 1000,
        spec_base_severity_bps(FaultCode::BatchOvercommit) == 1000,
        spec_base_severity_bps(FaultCode::WrongResponse) == 500,
        spec_base_severity_bps(FaultCode::CacheReplay) == 500,
        spec_base_severity_bps(FaultCode::LogProbDrift) == 200,
        spec_base_severity_bps(FaultCode::AttestationStale) == 200,
        spec_base_severity_bps(FaultCode::KernelPackMismatch) == 50,
        spec_base_severity_bps(FaultCode::DeviceCertCollision) == 10_000,
        spec_base_severity_bps(FaultCode::SanctionsHit) == 10_000,
        spec_base_severity_bps(FaultCode::FakeBurn) == 5000,
        spec_base_severity_bps(FaultCode::HeartbeatMiss) == 0,
        forall|f: FaultCode| #[trigger] spec_base_severity_bps(f) <= 10_000,
{
}

/// A fault's code: its position in the list of faults.
pub open spec fn spec_fault_code(f: FaultCode) -> u16 {
    match f {
        FaultCode::WrongModel => 0,
        FaultCode::WrongResponse => 1,
        FaultCode::LogProbDrift => 2,
        FaultCode::CacheReplay => 3,
        FaultCode::QuantizationSwap => 4,
        FaultCode::KernelPackMismatch => 5,
        FaultCode::DeviceCertCollision => 6,
        FaultCode::HeartbeatMiss => 7,
        FaultCode::AttestationStale => 8,
        FaultCode::SanctionsHit => 9,
        FaultCode::ValidatorCollusion => 10,
        FaultCode::FakeBurn => 11,
        FaultCode::BatchOvercommit => 12,
    }
}

impl FaultCode {
    /// The reason code recorded when the fault's slash burns stake.
    pub fn code(&self) -> (c: u16)
        ensures
            c == spec_fault_code(*self),
    {
        match self {
            FaultCode::WrongModel => 0,
            FaultCode::WrongResponse => 1,
            FaultCode::LogProbDrift => 2,
            FaultCode::CacheReplay => 3,
            FaultCode::QuantizationSwap => 4,
            FaultCode::KernelPackMismatch => 5,
            FaultCode::DeviceCertCollision => 6,
            FaultCode::HeartbeatMiss => 7,
            FaultCode::AttestationStale => 8,
            FaultCode::SanctionsHit => 9,
            FaultCode::ValidatorCollusion => 10,
            FaultCode::FakeBurn => 11,
            FaultCode::BatchOvercommit => 12,
        }
    }

    pub fn base_severity_bps(&self) -> (b: u16)
        ensures
            b == spec_base_severity_bps(*self),
            b <= 10_000,
    {
        match self {
            FaultCode::WrongModel | FaultCode::QuantizationSwap | FaultCode::ValidatorCollusion
            | FaultCode::BatchOvercommit => 1000,
            FaultCode::WrongResponse | FaultCode::CacheReplay => 500,
            FaultCode::LogProbDrift | FaultCode::AttestationStale => 200,
            FaultCode::KernelPackMismatch => 50,
            FaultCode::DeviceCertCollision | FaultCode::SanctionsHit => 10_000,
            FaultCode::FakeBurn => 5000,
            FaultCode::HeartbeatMiss => 0,
        }
    }
}

#[derive(Clone, Copy, Debug, PartialEq, Eq, Structural)]
pub enum SlashState {
    Pending,
    Disputed,
    Arbitrated,
    Ratified,
    Finalized,
}

#[derive(Clone, Copy, Debug, PartialEq, Eq, Structural)]
pub enum ArbitrationVote {
    Uphold,
    Overturn,
    Insufficient,
}

#[derive(Clone, Copy, Debug, PartialEq, Eq, Structural)]
pub enum MultisigDecision {
    Uphold,
    Overturn,
}

/// A slash against an operator.
#[derive(Clone, Copy, Debug, PartialEq, Eq, Structural)]
pub struct SlashEvent {
    pub operator: AccountId,
    pub fault_code: FaultCode,
    pub severity_bps: u16,
    pub evidence_hash: H256,
    pub state: SlashState,
    pub created_at: BlockNumber,
}

/// Runtime configuration of the pallet.
#[derive(Clone, Copy, Debug, PartialEq, Eq, Structural)]
pub struct Config {
    /// Blocks a pending slash stays open to dispute.
    pub dispute_window: BlockNumber,
}

#[derive(Clone, Copy, Debug, PartialEq, Eq, Structural)]
pub enum Event {
    SlashSubmitted { slash_id: u64, operator: AccountId, fault_code: FaultCode },
    SlashDisputed { slash_id: u64 },
    SlashArbitrated { slash_id: u64, vote: ArbitrationVote },
    SlashRatified { slash_id: u64, decision: MultisigDecision },
    SlashFinalized { slash_id: u64 },
}

#[derive(Clone, Copy, Debug, PartialEq, Eq, Structural)]
pub enum Error {
    /// The origin is not the one the call requires.
    BadOrigin,
    UnknownSlash,
    BadState,
    PanelFull,
    NotSlashOperator,
    DisputeWindowOpen,
}

/// The pallet's storage.
pub struct Pallet {
    pub config: Config,
    pub next_slash_id: u64,
    pub slashes: KeyMap<u64, SlashEvent>,
    /// Arbiter votes per slash, in the order given.
    pub arbitration_votes: KeyMap<u64, Vec<(AccountId, ArbitrationVote)>>,
    /// Ratification decisions per slash, in the order given.
    pub ratification_votes: KeyMap<u64, Vec<(AccountId, MultisigDecision)>>,
}

/// Most votes recorded per slash.
pub const MAX_PANEL_SIZE: u32 = 64;

/// The votes recorded for `slash_id`, none when it has no entry.
pub open spec fn votes_of<T>(votes: Map<u64, Vec<T>>, slash_id: u64) -> Seq<T> {
    if votes.contains_key(slash_id) { votes[slash_id]@ } else { Seq::empty() }
}

/// `after` is `before` with `vote` appended to the votes of `slash_id`.
pub open spec fn vote_appended<T>(before: Map<u64, Vec<T>>, after: Map<u64, Vec<T>>, slash_id: u64, vote: T) -> bool {
    &&& after.contains_key(slash_id)
    &&& after[slash_id]@ == votes_of(before, slash_id).push(vote)
    &&& after.remove(slash_id) == before.remove(slash_id)
}

/// A copy of a list of votes.
fn copy_votes<T: Copy>(v: &Vec<T>) -> (r: Vec<T>)
    ensures
        r@ == v@,
{
    let mut r: Vec<T> = Vec::new();
    let mut i: usize = 0;
    while i < v.len()
        invariant
            i <= v@.len(),
            r@ == v@.take(i as int),
        decreases v@.len() - i,
    {
        r.push(v[i]);
        proof {
            assert(v@.take(i + 1) =~= v@.take(i as int).push(v@[i as int]));
        }
        i += 1;
    }
    proof {
        assert(v@.take(v@.len() as int) =~= v@);
    }
    r
}

/// An operator with one more freeze.
pub open spec fn frozen_once_more(op: Operator) -> Operator {
    Operator { frozen: true, pending_freezes: sat_add_u32(op.pending_freezes, 1), ..op }
}

/// An operator with one freeze released.
pub open spec fn released_once(op: Operator) -> Operator {
    let pending = sat_sub_u32(op.pending_freezes, 1);
    Operator { frozen: pending > 0, pending_freezes: pending, ..op }
}

/// An operator with `bps` of its stake burned and one freeze released.
pub open spec fn slashed_and_released(op: Operator, bps: u16) -> Operator {
    let take = bps_of(op.stake, bps);
    Operator { stake: (op.stake - take) as Balance, ..released_once(op) }
}

/// A slash holds its operator's freeze until it is finalized.
pub open spec fn holds_freeze(s: SlashEvent) -> bool {
    s.state != SlashState::Finalized
}

/// The ids of the slashes that hold a freeze on `who`.
pub open spec fn freezing_slashes(slashes: Map<u64, SlashEvent>, who: AccountId) -> Set<u64> {
    Set::new(|id: u64| slashes.contains_key(id) && slashes[id].operator == who && holds_freeze(slashes[id]))
}

/// Freeze accounting between slashes and operators: every slash id was
/// handed out already, every slash that holds a freeze is against a
/// registered operator, and each operator's freeze count is the number of
/// slashes that hold a freeze on it.
pub open spec fn freezes_match(
    slashes: Map<u64, SlashEvent>,
    next_slash_id: u64,
    operators: Map<AccountId, Operator>,
) -> bool {
    &&& slashes.dom().finite()
    &&& forall|id: u64| #[trigger]
        slashes.contains_key(id) ==> id < next_slash_id && (holds_freeze(slashes[id])
            ==> operators.contains_key(slashes[id].operator))
    &&& forall|who: AccountId| #[trigger]
        operators.contains_key(who) ==> operators[who].pending_freezes == freezing_slashes(slashes, who).len()
}

/// Every slash id is below the next one to be handed out.
pub open spec fn ids_issued(slashes: Map<u64, SlashEvent>, next_slash_id: u64) -> bool {
    forall|id: u64| #[trigger] slashes.contains_key(id) ==> id < next_slash_id
}

/// The moves a slash's state may make in one call.
pub open spec fn state_step(from: SlashState, to: SlashState) -> bool {
    ||| from == to
    ||| from == SlashState::Pending && to == SlashState::Disputed
    ||| from == SlashState::Disputed && to == SlashState::Arbitrated
    ||| from == SlashState::Arbitrated && to == SlashState::Ratified
    ||| from == SlashState::Arbitrated && to == SlashState::Finalized
    ||| from == SlashState::Ratified && to == SlashState::Finalized
    ||| from == SlashState::Pending && to == SlashState::Finalized
}

/// Every slash of `before` is still in `after`, with the same record but
/// for a state reached by an allowed step.
pub open spec fn slashes_advance(before: Map<u64, SlashEvent>, after: Map<u64, SlashEvent>) -> bool {
    forall|id: u64| #[trigger]
        before.contains_key(id) ==> after.contains_key(id) && after[id] == SlashEvent {
            state: after[id].state,
            ..before[id]
        } && state_step(before[id].state, after[id].state)
}

/// The set of slashes holding a freeze on `who` is finite, and how one
/// write changes it.
proof fn lemma_freezing_after_insert(slashes: Map<u64, SlashEvent>, id: u64, s: SlashEvent, who: AccountId)
    requires
        slashes.dom().finite(),
    ensures
        freezing_slashes(slashes, who).finite(),
        freezing_slashes(slashes.insert(id, s), who) == if s.operator == who && holds_freeze(s) {
            freezing_slashes(slashes, who).insert(id)
        } else {
            freezing_slashes(slashes, who).remove(id)
        },
{
    vstd::set_lib::lemma_len_subset(freezing_slashes(slashes, who), slashes.dom());
    let after = freezing_slashes(slashes.insert(id, s), who);
    if s.operator == who && holds_freeze(s) {
        assert(after =~= freezing_slashes(slashes, who).insert(id));
    } else {
        assert(after =~= freezing_slashes(slashes, who).remove(id));
    }
}

/// Rewriting slash `id` to a record against the same operator that holds a
/// freeze exactly when the old one did keeps every freeze count.
proof fn lemma_same_hold_keeps_match(
    slashes: Map<u64, SlashEvent>,
    next_slash_id: u64,
    operators: Map<AccountId, Operator>,
    id: u64,
    s: SlashEvent,
)
    requires
        freezes_match(slashes, next_slash_id, operators),
        slashes.contains_key(id),
        s.operator == slashes[id].operator,
        holds_freeze(s) == holds_freeze(slashes[id]),
    ensures
        freezes_match(slashes.insert(id, s), next_slash_id, operators),
{
    let after = slashes.insert(id, s);
    assert(after.dom() =~= slashes.dom());
    assert forall|who: AccountId| #[trigger] operators.contains_key(who) implies operators[who].pending_freezes
        == freezing_slashes(after, who).len() by {
        assert(freezing_slashes(after, who) =~= freezing_slashes(slashes, who));
    }
}

/// Finalizing slash `id`, which held a freeze, while its operator's count
/// drops by one keeps the accounting.
proof fn lemma_release_keeps_match(
    slashes: Map<u64, SlashEvent>,
    next_slash_id: u64,
    operators: Map<AccountId, Operator>,
    id: u64,
    s: SlashEvent,
    op: Operator,
)
    requires
        freezes_match(slashes, next_slash_id, operators),
        slashes.contains_key(id),
        holds_freeze(slashes[id]),
        s.operator == slashes[id].operator,
        !holds_freeze(s),
        op.pending_freezes == operators[s.operator].pending_freezes - 1,
    ensures
        freezes_match(slashes.insert(id, s), next_slash_id, operators.insert(s.operator, op)),
{
    let after = slashes.insert(id, s);
    let ops = operators.insert(s.operator, op);
    assert(after.dom() =~= slashes.dom());
    assert forall|who: AccountId| #[trigger] ops.contains_key(who) implies ops[who].pending_freezes
        == freezing_slashes(after, who).len() by {
        lemma_freezing_after_insert(slashes, id, s, who);
        if who == s.operator {
            assert(freezing_slashes(slashes, who).contains(id));
        } else {
            assert(!freezing_slashes(slashes, who).contains(id));
            assert(freezing_slashes(slashes, who).remove(id) =~= freezing_slashes(slashes, who));
        }
    }
}

/// A slash that holds a freeze is against a registered operator whose
/// count includes it.
proof fn lemma_held_slash_counted(
    slashes: Map<u64, SlashEvent>,
    next_slash_id: u64,
    operators: Map<AccountId, Operator>,
    id: u64,
)
    requires
        freezes_match(slashes, next_slash_id, operators),
        slashes.contains_key(id),
        holds_freeze(slashes[id]),
    ensures
        operators.contains_key(slashes[id].operator),
        operators[slashes[id].operator].pending_freezes >= 1,
{
    let who = slashes[id].operator;
    lemma_freezing_after_insert(slashes, id, slashes[id], who);
    assert(freezing_slashes(slashes, who).contains(id));
    vstd::set::axiom_set_contains_len(freezing_slashes(slashes, who), id);
}

/// Opening slash `next_slash_id` against a registered operator whose count
/// grows by one keeps the accounting.
proof fn lemma_open_keeps_match(
    slashes: Map<u64, SlashEvent>,
    next_slash_id: u64,
    operators: Map<AccountId, Operator>,
    s: SlashEvent,
    op: Operator,
)
    requires
        freezes_match(slashes, next_slash_id, operators),
        next_slash_id < u64::MAX,
        operators.contains_key(s.operator),
        holds_freeze(s),
        op.pending_freezes == operators[s.operator].pending_freezes + 1,
    ensures
        freezes_match(
            slashes.insert(next_slash_id, s),
            (next_slash_id + 1) as u64,
            operators.insert(s.operator, op),
        ),
{
    let after = slashes.insert(next_slash_id, s);
    let ops = operators.insert(s.operator, op);
    assert forall|who: AccountId| #[trigger] ops.contains_key(who) implies ops[who].pending_freezes
        == freezing_slashes(after, who).len() by {
        lemma_freezing_after_insert(slashes, next_slash_id, s, who);
        assert(!freezing_slashes(slashes, who).contains(next_slash_id));
        if who != s.operator {
            assert(freezing_slashes(slashes, who).remove(next_slash_id) =~= freezing_slashes(slashes, who));
        }
    }
}

impl Pallet {
    pub open spec fn wf(&self) -> bool {
        &&& self.slashes.wf()
        &&& self.arbitration_votes.wf()
        &&& self.ratification_votes.wf()
    }

    /// The pallet's slashes account for the freezes on `operators`.
    pub open spec fn accounts_for(&self, operators: Map<AccountId, Operator>) -> bool {
        freezes_match(self.slashes@, self.next_slash_id, operators)
    }

    pub fn new(config: Config) -> (p: Pallet)
        ensures
            p.wf(),
            p.config == config,
            p.next_slash_id == 0,
            p.slashes@ == Map::<u64, SlashEvent>::empty(),
            p.arbitration_votes@ == Map::<u64, Vec<(AccountId, ArbitrationVote)>>::empty(),
            p.ratification_votes@ == Map::<u64, Vec<(AccountId, MultisigDecision)>>::empty(),
            p.accounts_for(Map::<AccountId, Operator>::empty()),
    {
        let p = Pallet {
            config,
            next_slash_id: 0,
            slashes: KeyMap::new(),
            arbitration_votes: KeyMap::new(),
            ratification_votes: KeyMap::new(),
        };
        proof {
            assert(p.slashes@.dom() =~= Set::<u64>::empty());
        }
        p
    }

    /// A slash's record.
    pub fn slash(&self, slash_id: u64) -> (r: Option<SlashEvent>)
        requires
            self.wf(),
        ensures
            r == if self.slashes@.contains_key(slash_id) {
                Some(self.slashes@[slash_id])
            } else {
                None::<SlashEvent>
            },
    {
        match self.slashes.get(&slash_id) {
            Some(s) => Some(*s),
            None => None,
        }
    }

    /// The evidence origin (root) opens a slash against a registered
    /// operator, freezing it.
    pub fn submit_slashing_evidence(
        &mut self,
        operators: &mut operator_stake::Pallet,
        origin: Origin,
        operator: AccountId,
        fault_code: FaultCode,
        evidence_hash: H256,
        now: BlockNumber,
    ) -> (r: Result<Event, Error>)
        requires
            old(self).wf(),
            old(operators).wf(),
        ensures
            old(operators).stake_balanced() ==> final(operators).stake_balanced(),
            old(self).accounts_for(old(operators).operators@) && old(self).next_slash_id < u64::MAX && old(
                operators,
            ).operators@.contains_key(operator) && old(operators).operators@[operator].pending_freezes < u32::MAX
                ==> final(self).accounts_for(final(operators).operators@),
            ids_issued(old(self).slashes@, old(self).next_slash_id) ==> slashes_advance(old(self).slashes@, final(self).slashes@),
            final(self).wf(),
            final(operators).wf(),
            final(self).config == old(self).config,
            final(operators).config == old(operators).config,
            final(operators).total_stake == old(operators).total_stake,
            r is Err ==> *final(self) == *old(self) && *final(operators) == *old(operators),
            !(origin is Root) ==> r == Err::<Event, Error>(Error::BadOrigin),
            final(self).arbitration_votes == old(self).arbitration_votes,
            final(self).ratification_votes == old(self).ratification_votes,
            origin is Root ==> ({
                let id = old(self).next_slash_id;
                &&& r == Ok::<Event, Error>(Event::SlashSubmitted { slash_id: id, operator, fault_code })
                &&& final(self).next_slash_id == sat_add_u64(id, 1)
                &&& final(self).slashes@ == old(self).slashes@.insert(
                    id,
                    SlashEvent {
                        operator,
                        fault_code,
                        severity_bps: spec_base_severity_bps(fault_code),
                        evidence_hash,
                        state: SlashState::Pending,
                        created_at: now,
                    },
                )
                &&& final(operators).operators@ == if old(operators).operators@.contains_key(operator) {
                    old(operators).operators@.insert(operator, frozen_once_more(old(operators).operators@[operator]))
                } else {
                    old(operators).operators@
                }
            }),
    {
        if !origin.is_root() {
            return Err(Error::BadOrigin);
        }
        if operators.operators.contains_key(&operator) {
            let frozen = operators.freeze_operator(&operator);
            assert(frozen is Ok);
        }
        let slash_id = self.next_slash_id;
        self.next_slash_id = self.next_slash_id.saturating_add(1);
        let severity_bps = fault_code.base_severity_bps();
        let s = SlashEvent {
            operator,
            fault_code,
            severity_bps,
            evidence_hash,
            state: SlashState::Pending,
            created_at: now,
        };
        self.slashes.insert(slash_id, s);
        proof {
            if old(self).accounts_for(old(operators).operators@) && slash_id < u64::MAX
                && old(operators).operators@.contains_key(operator)
                && old(operators).operators@[operator].pending_freezes < u32::MAX {
                lemma_open_keeps_match(
                    old(self).slashes@,
                    slash_id,
                    old(operators).operators@,
                    s,
                    frozen_once_more(old(operators).operators@[operator]),
                );
            }
            if ids_issued(old(self).slashes@, slash_id) {
                assert forall|id: u64| #[trigger] old(self).slashes@.contains_key(id) implies id != slash_id by {
                    assert(id < slash_id);
                }
            }
        }
        Ok(Event::SlashSubmitted { slash_id, operator, fault_code })
    }

    /// The slashed operator disputes a pending slash.
    pub fn dispute_slashing(&mut self, origin: Origin, slash_id: u64, counter_evidence_hash: H256) -> (r: Result<
        Event,
        Error,
    >)
        requires
            old(self).wf(),
        ensures
            final(self).arbitration_votes == old(self).arbitration_votes,
            final(self).ratification_votes == old(self).ratification_votes,
            forall|ops: Map<AccountId, Operator>| #[trigger] old(self).accounts_for(ops) ==> final(self).accounts_for(ops),
            slashes_advance(old(self).slashes@, final(self).slashes@),
            final(self).wf(),
            final(self).config == old(self).config,
            final(self).next_slash_id == old(self).next_slash_id,
            r is Err ==> *final(self) == *old(self),
            match origin {
                Origin::Signed(who) => if !old(self).slashes@.contains_key(slash_id) {
                    r == Err::<Event, Error>(Error::UnknownSlash)
                } else if old(self).slashes@[slash_id].operator != who {
                    r == Err::<Event, Error>(Error::NotSlashOperator)
                } else if old(self).slashes@[slash_id].state != SlashState::Pending {
                    r == Err::<Event, Error>(Error::BadState)
                } else {
                    &&& r == Ok::<Event, Error>(Event::SlashDisputed { slash_id })
                    &&& final(self).slashes@ == old(self).slashes@.insert(
                        slash_id,
                        SlashEvent { state: SlashState::Disputed, ..old(self).slashes@[slash_id] },
                    )
                },
                _ => r == Err::<Event, Error>(Error::BadOrigin),
            },
    {
        let who = match origin.signer() {
            Some(who) => who,
            None => return Err(Error::BadOrigin),
        };
        let s = match self.slashes.get(&slash_id) {
            Some(s) => *s,
            None => return Err(Error::UnknownSlash),
        };
        if s.operator != who {
            return Err(Error::NotSlashOperator);
        }
        if s.state != SlashState::Pending {
            return Err(Error::BadState);
        }
        let ghost before = self.slashes@;
        let ghost next = self.next_slash_id;
        self.slashes.insert(slash_id, SlashEvent { state: SlashState::Disputed, ..s });
        proof {
            assert forall|ops: Map<AccountId, Operator>| #[trigger] freezes_match(before, next, ops) implies freezes_match(
                self.slashes@,
                next,
                ops,
            ) by {
                lemma_same_hold_keeps_match(before, next, ops, slash_id, SlashEvent { state: SlashState::Disputed, ..s });
            }
        }
        Ok(Event::SlashDisputed { slash_id })
    }

    /// The panel (root) records its arbitration of a disputed slash.
    pub fn arbitrate_dispute(&mut self, origin: Origin, slash_id: u64, vote: ArbitrationVote) -> (r: Result<
        Event,
        Error,
    >)
        requires
            old(self).wf(),
        ensures
            forall|ops: Map<AccountId, Operator>| #[trigger] old(self).accounts_for(ops) ==> final(self).accounts_for(ops),
            slashes_advance(old(self).slashes@, final(self).slashes@),
            final(self).wf(),
            final(self).config == old(self).config,
            final(self).next_slash_id == old(self).next_slash_id,
            r is Err ==> *final(self) == *old(self),
            !(origin is Root) ==> r == Err::<Event, Error>(Error::BadOrigin),
            origin is Root && !old(self).slashes@.contains_key(slash_id) ==> r == Err::<Event, Error>(
                Error::UnknownSlash,
            ),
            origin is Root && old(self).slashes@.contains_key(slash_id) ==> if old(self).slashes@[slash_id].state
                != SlashState::Disputed {
                r == Err::<Event, Error>(Error::BadState)
            } else if votes_of(old(self).arbitration_votes@, slash_id).len() >= MAX_PANEL_SIZE {
                r == Err::<Event, Error>(Error::PanelFull)
            } else {
                &&& r == Ok::<Event, Error>(Event::SlashArbitrated { slash_id, vote })
                &&& final(self).slashes@ == old(self).slashes@.insert(
                    slash_id,
                    SlashEvent { state: SlashState::Arbitrated, ..old(self).slashes@[slash_id] },
                )
                &&& vote_appended(old(self).arbitration_votes@, final(self).arbitration_votes@, slash_id, (slash_id, vote))
                &&& final(self).ratification_votes == old(self).ratification_votes
            },
    {
        if !origin.is_root() {
            return Err(Error::BadOrigin);
        }
        let s = match self.slashes.get(&slash_id) {
            Some(s) => *s,
            None => return Err(Error::UnknownSlash),
        };
        if s.state != SlashState::Disputed {
            return Err(Error::BadState);
        }
        let mut votes = match self.arbitration_votes.get(&slash_id) {
            Some(v) => copy_votes(v),
            None => Vec::new(),
        };
        if votes.len() >= MAX_PANEL_SIZE as usize {
            return Err(Error::PanelFull);
        }
        // The panel acts as root, which names no account: the vote is
        // recorded under the slash id.
        votes.push((slash_id, vote));
        let ghost votes_before = self.arbitration_votes@;
        self.arbitration_votes.insert(slash_id, votes);
        proof {
            assert(self.arbitration_votes@.remove(slash_id) =~= votes_before.remove(slash_id));
        }
        let ghost before = self.slashes@;
        let ghost next = self.next_slash_id;
        self.slashes.insert(slash_id, SlashEvent { state: SlashState::Arbitrated, ..s });
        proof {
            assert forall|ops: Map<AccountId, Operator>| #[trigger] freezes_match(before, next, ops) implies freezes_match(
                self.slashes@,
                next,
                ops,
            ) by {
                lemma_same_hold_keeps_match(before, next, ops, slash_id, SlashEvent { state: SlashState::Arbitrated, ..s });
            }
        }
        Ok(Event::SlashArbitrated { slash_id, vote })
    }

    /// The panel (root) ratifies an arbitrated slash. Upholding it leaves it
    /// `Ratified` for finalization; overturning it finalizes it at once and
    /// releases the operator's freeze without burning stake.
    pub fn ratify_dispute(
        &mut self,
        operators: &mut operator_stake::Pallet,
        origin: Origin,
        slash_id: u64,
        decision: MultisigDecision,
    ) -> (r: Result<Event, Error>)
        requires
            old(self).wf(),
            old(operators).wf(),
        ensures
            final(self).arbitration_votes == old(self).arbitration_votes,
            old(operators).stake_balanced() ==> final(operators).stake_balanced(),
            old(self).accounts_for(old(operators).operators@) ==> final(self).accounts_for(final(operators).operators@),
            slashes_advance(old(self).slashes@, final(self).slashes@),
            final(self).wf(),
            final(operators).wf(),
            final(self).config == old(self).config,
            final(self).next_slash_id == old(self).next_slash_id,
            final(operators).config == old(operators).config,
            final(operators).total_stake == old(operators).total_stake,
            r is Err ==> *final(self) == *old(self) && *final(operators) == *old(operators),
            !(origin is Root) ==> r == Err::<Event, Error>(Error::BadOrigin),
            origin is Root && !old(self).slashes@.contains_key(slash_id) ==> r == Err::<Event, Error>(
                Error::UnknownSlash,
            ),
            origin is Root && old(self).slashes@.contains_key(slash_id) ==> ({
                let s = old(self).slashes@[slash_id];
                if s.state != SlashState::Arbitrated {
                    r == Err::<Event, Error>(Error::BadState)
                } else if votes_of(old(self).ratification_votes@, slash_id).len() >= MAX_PANEL_SIZE {
                    r == Err::<Event, Error>(Error::PanelFull)
                } else if decision == MultisigDecision::Uphold {
                    &&& r == Ok::<Event, Error>(Event::SlashRatified { slash_id, decision })
                    &&& vote_appended(
                        old(self).ratification_votes@,
                        final(self).ratification_votes@,
                        slash_id,
                        (slash_id, decision),
                    )
                    &&& final(self).slashes@ == old(self).slashes@.insert(
                        slash_id,
                        SlashEvent { state: SlashState::Ratified, ..s },
                    )
                    &&& *final(operators) == *old(operators)
                } else {
                    &&& r == Ok::<Event, Error>(Event::SlashRatified { slash_id, decision })
                    &&& vote_appended(
                        old(self).ratification_votes@,
                        final(self).ratification_votes@,
                        slash_id,
                        (slash_id, decision),
                    )
                    &&& final(self).slashes@ == old(self).slashes@.insert(
                        slash_id,
                        SlashEvent { state: SlashState::Finalized, ..s },
                    )
                    &&& final(operators).operators@ == if old(operators).operators@.contains_key(s.operator) {
                        old(operators).operators@.insert(s.operator, released_once(old(operators).operators@[s.operator]))
                    } else {
                        old(operators).operators@
                    }
                }
            }),
    {
        if !origin.is_root() {
            return Err(Error::BadOrigin);
        }
        let s = match self.slashes.get(&slash_id) {
            Some(s) => *s,
            None => return Err(Error::UnknownSlash),
        };
        if s.state != SlashState::Arbitrated {
            return Err(Error::BadState);
        }
        let mut votes = match self.ratification_votes.get(&slash_id) {
            Some(v) => copy_votes(v),
            None => Vec::new(),
        };
        if votes.len() >= MAX_PANEL_SIZE as usize {
            return Err(Error::PanelFull);
        }
        // Recorded under the slash id, as the panel acts as root.
        votes.push((slash_id, decision));
        let ghost votes_before = self.ratification_votes@;
        self.ratification_votes.insert(slash_id, votes);
        proof {
            assert(self.ratification_votes@.remove(slash_id) =~= votes_before.remove(slash_id));
        }
        let ghost before = self.slashes@;
        let ghost ops_before = operators.operators@;
        let ghost next = self.next_slash_id;
        match decision {
            MultisigDecision::Uphold => {
                self.slashes.insert(slash_id, SlashEvent { state: SlashState::Ratified, ..s });
                proof {
                    if freezes_match(before, next, ops_before) {
                        lemma_same_hold_keeps_match(
                            before,
                            next,
                            ops_before,
                            slash_id,
                            SlashEvent { state: SlashState::Ratified, ..s },
                        );
                    }
                }
            },
            MultisigDecision::Overturn => {
                if operators.operators.contains_key(&s.operator) {
                    let released = operators.unfreeze_operator(&s.operator);
                    assert(released is Ok);
                }
                self.slashes.insert(slash_id, SlashEvent { state: SlashState::Finalized, ..s });
                proof {
                    if freezes_match(before, next, ops_before) {
                        lemma_held_slash_counted(before, next, ops_before, slash_id);
                        lemma_release_keeps_match(
                            before,
                            next,
                            ops_before,
                            slash_id,
                            SlashEvent { state: SlashState::Finalized, ..s },
                            released_once(ops_before[s.operator]),
                        );
                    }
                }
            },
        }
        Ok(Event::SlashRatified { slash_id, decision })
    }

    /// The panel (root) finalizes a slash that is either `Ratified`, or
    /// `Pending` with its dispute window over: the operator loses the
    /// fault's severity share of its stake and the slash's freeze is
    /// released.
    pub fn finalize_slash<C: ReservableCurrency>(
        &mut self,
        operators: &mut operator_stake::Pallet,
        currency: &mut CurrencyHandle<C>,
        origin: Origin,
        slash_id: u64,
        now: BlockNumber,
    ) -> (r: Result<Event, Error>)
        requires
            old(self).wf(),
            old(operators).wf(),
        ensures
            final(self).arbitration_votes == old(self).arbitration_votes,
            final(self).ratification_votes == old(self).ratification_votes,
            old(operators).stake_balanced() ==> final(operators).stake_balanced(),
            old(self).accounts_for(old(operators).operators@) ==> final(self).accounts_for(final(operators).operators@),
            slashes_advance(old(self).slashes@, final(self).slashes@),
            final(self).wf(),
            final(operators).wf(),
            final(self).config == old(self).config,
            final(self).next_slash_id == old(self).next_slash_id,
            final(operators).config == old(operators).config,
            r is Err ==> *final(self) == *old(self) && *final(operators) == *old(operators) && *final(currency)
                == *old(currency),
            !(origin is Root) ==> r == Err::<Event, Error>(Error::BadOrigin),
            origin is Root && !old(self).slashes@.contains_key(slash_id) ==> r == Err::<Event, Error>(
                Error::UnknownSlash,
            ),
            origin is Root && old(self).slashes@.contains_key(slash_id) ==> ({
                let s = old(self).slashes@[slash_id];
                if s.state != SlashState::Pending && s.state != SlashState::Ratified {
                    r == Err::<Event, Error>(Error::BadState)
                } else if s.state == SlashState::Pending && sat_sub_u64(now, s.created_at) < old(self).config.dispute_window {
                    r == Err::<Event, Error>(Error::DisputeWindowOpen)
                } else if !old(operators).operators@.contains_key(s.operator) {
                    &&& r == Ok::<Event, Error>(Event::SlashFinalized { slash_id })
                    &&& final(self).slashes@ == old(self).slashes@.insert(
                        slash_id,
                        SlashEvent { state: SlashState::Finalized, ..s },
                    )
                    &&& *final(operators) == *old(operators)
                    &&& *final(currency) == *old(currency)
                } else {
                    let op = old(operators).operators@[s.operator];
                    &&& final(currency)@ == old(currency)@.push(
                        CurrencyCall::SlashReserved { who: s.operator, amount: bps_of(op.stake, s.severity_bps) },
                    )
                    &&& r == Ok::<Event, Error>(Event::SlashFinalized { slash_id })
                    &&& final(self).slashes@ == old(self).slashes@.insert(
                        slash_id,
                        SlashEvent { state: SlashState::Finalized, ..s },
                    )
                    &&& final(operators).operators@ == old(operators).operators@.insert(
                        s.operator,
                        slashed_and_released(op, s.severity_bps),
                    )
                    &&& final(operators).total_stake == sat_sub_u128(
                        old(operators).total_stake,
                        bps_of(op.stake, s.severity_bps),
                    )
                }
            }),
    {
        if !origin.is_root() {
            return Err(Error::BadOrigin);
        }
        let s = match self.slashes.get(&slash_id) {
            Some(s) => *s,
            None => return Err(Error::UnknownSlash),
        };
        if s.state != SlashState::Pending && s.state != SlashState::Ratified {
            return Err(Error::BadState);
        }
        if s.state == SlashState::Pending && now.saturating_sub(s.created_at) < self.config.dispute_window {
            return Err(Error::DisputeWindowOpen);
        }
        let ghost before = self.slashes@;
        let ghost ops_before = operators.operators@;
        let ghost next = self.next_slash_id;
        if operators.operators.contains_key(&s.operator) {
            let slashed = operators.slash_operator_by_bps(currency, &s.operator, s.severity_bps, s.fault_code.code());
            assert(slashed is Ok);
        }
        self.slashes.insert(slash_id, SlashEvent { state: SlashState::Finalized, ..s });
        proof {
            if freezes_match(before, next, ops_before) {
                lemma_held_slash_counted(before, next, ops_before, slash_id);
                lemma_release_keeps_match(
                    before,
                    next,
                    ops_before,
                    slash_id,
                    SlashEvent { state: SlashState::Finalized, ..s },
                    slashed_and_released(ops_before[s.operator], s.severity_bps),
                );
            }
        }
        Ok(Event::SlashFinalized { slash_id })
    }
}



/// How far along its life a slash state is.
pub open spec fn state_rank(state: SlashState) -> nat {
    match state {
        SlashState::Pending => 0,
        SlashState::Disputed => 1,
        SlashState::Arbitrated => 2,
        SlashState::Ratified => 3,
        SlashState::Finalized => 4,
    }
}

/// Law: operator-stake calls that keep freeze counts (registering, leaving,
/// heartbeats and plain slashes) keep the slashes' freeze accounting.
pub proof fn lemma_kept_freezes_keep_accounting(
    slashing: &Pallet,
    before: Map<AccountId, Operator>,
    after: Map<AccountId, Operator>,
)
    requires
        slashing.accounts_for(before),
        freezes_kept(before, after),
    ensures
        slashing.accounts_for(after),
{
    let slashes = slashing.slashes@;
    assert forall|id: u64| #[trigger] slashes.contains_key(id) && holds_freeze(slashes[id]) implies after.contains_key(
        slashes[id].operator,
    ) by {
        let who = slashes[id].operator;
        if !after.contains_key(who) {
            lemma_held_slash_counted(slashes, slashing.next_slash_id, before, id);
        }
    }
    assert forall|who: AccountId| #[trigger] after.contains_key(who) implies after[who].pending_freezes
        == freezing_slashes(slashes, who).len() by {
        if !before.contains_key(who) {
            assert forall|id: u64| !#[trigger] freezing_slashes(slashes, who).contains(id) by {
                if freezing_slashes(slashes, who).contains(id) {
                    assert(slashes.contains_key(id));
                }
            }
            assert(freezing_slashes(slashes, who) =~= Set::<u64>::empty());
        }
    }
}

/// Law: no call moves a slash back to an earlier state, and a finalized
/// slash stays exactly as it was.
pub proof fn lemma_slashes_never_go_back(before: Map<u64, SlashEvent>, after: Map<u64, SlashEvent>, id: u64)
    requires
        slashes_advance(before, after),
        before.contains_key(id),
    ensures
        after.contains_key(id),
        state_rank(before[id].state) <= state_rank(after[id].state),
        before[id].state == SlashState::Finalized ==> after[id] == before[id],
{
}

} // verus!
