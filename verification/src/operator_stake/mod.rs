//! Operator stake: registered operators, their reserved stake, heartbeat
//! epochs, and the freeze / slash hooks that the slashing pallet drives.
//!
//! An operator under a pending slash is frozen: it can neither heartbeat nor
//! leave. Every pending slash holds one freeze, and the operator thaws only
//! when all of them have been released.

use vstd::prelude::*;

use crate::keymap::KeyMap;
use crate::sums::{lemma_map_sum_insert, lemma_map_sum_nonneg, lemma_map_sum_remove, lemma_map_sum_update, map_sum};
use crate::primitives::{
    sat_add_u128, sat_add_u32, sat_add_u64, sat_sub_u128, sat_sub_u32, AccountId, Balance, BlockNumber,
    Origin, H256,
};

pub mod currency;
pub mod weights;

pub use currency::{CurrencyCall, CurrencyHandle};

verus! {

/// The runtime's currency, which holds operators' stake in reserve. The
/// pallet makes no assumption about what these calls do.
pub trait ReservableCurrency {
    /// Moves `amount` of `who`'s free balance into reserve, or fails.
    fn reserve(&mut self, who: AccountId, amount: Balance) -> Result<(), ()>;

    /// Moves up to `amount` of `who`'s reserve back to free balance; returns
    /// the part that could not be moved.
    fn unreserve(&mut self, who: AccountId, amount: Balance) -> Balance;

    /// Burns up to `amount` of `who`'s reserve; returns the part that could
    /// not be burned.
    fn slash_reserved(&mut self, who: AccountId, amount: Balance) -> Balance;
}

/// A registered operator.
#[derive(Clone, Copy, Debug, PartialEq, Eq, Structural)]
pub struct Operator {
    pub stake: Balance,
    pub last_heartbeat_epoch: u64,
    pub current_attestation_hash: H256,
    pub registered_at: BlockNumber,
    /// Whether some slash against the operator is still pending.
    pub frozen: bool,
    /// How many pending slashes hold a freeze on the operator.
    pub pending_freezes: u32,
}

/// Runtime configuration of the pallet.
#[derive(Clone, Copy, Debug, PartialEq, Eq, Structural)]
pub struct Config {
    /// The least stake an operator registers with.
    pub min_stake: Balance,
    /// How far past its last heartbeat epoch an operator may heartbeat.
    pub max_heartbeat_epoch_advance: u64,
}

#[derive(Clone, Copy, Debug, PartialEq, Eq, Structural)]
pub enum Event {
    Registered { who: AccountId, stake: Balance },
    Unregistered { who: AccountId },
    Heartbeat { who: AccountId, epoch: u64 },
    Slashed { who: AccountId, amount: Balance, reason_code: u16 },
}

#[derive(Clone, Copy, Debug, PartialEq, Eq, Structural)]
pub enum Error {
    /// The origin is not the one the call requires.
    BadOrigin,
    AlreadyRegistered,
    NotRegistered,
    InsufficientStake,
    Frozen,
    ReserveFailed,
    HeartbeatEpochStale,
    HeartbeatEpochTooFarAhead,
}

/// The pallet's storage.
pub struct Pallet {
    pub config: Config,
    pub operators: KeyMap<AccountId, Operator>,
    pub total_stake: Balance,
}

/// `floor(amount * bps / 10_000)` with `bps` capped at 10_000: the part of
/// `amount` that `bps` basis points denote.
pub open spec fn bps_of(amount: Balance, bps: u16) -> Balance {
    let b: int = if bps <= 10_000 { bps as int } else { 10_000 };
    ((amount as int * b) / 10_000) as Balance
}

/// `floor(amount * min(bps, 10_000) / 10_000)`, without overflow.
pub fn bps_of_exec(amount: Balance, bps: u16) -> (r: Balance)
    ensures
        r == bps_of(amount, bps),
        r <= amount,
{
    let b: u128 = if bps <= 10_000 { bps as u128 } else { 10_000 };
    let q = amount / 10_000;
    let rem = amount % 10_000;
    proof {
        assert(amount == q * 10_000 + rem);
        assert(q * b <= q * 10_000) by (nonlinear_arith)
            requires
                b <= 10_000,
        ;
        assert(rem * b < 10_000 * 10_000) by (nonlinear_arith)
            requires
                rem < 10_000,
                b <= 10_000,
        ;
        assert((amount as int * b) / 10_000 == q * b + (rem * b) / 10_000) by (nonlinear_arith)
            requires
                amount == q * 10_000 + rem,
                0 <= rem < 10_000,
                0 <= b,
        ;
        assert((rem * b) / 10_000 <= rem) by (nonlinear_arith)
            requires
                b <= 10_000,
                rem >= 0,
        ;
    }
    q * b + (rem * b) / 10_000
}

/// Each operator's stake.
pub open spec fn stakes(ops: Map<AccountId, Operator>) -> Map<AccountId, int> {
    Map::new(|a: AccountId| ops.contains_key(a), |a: AccountId| ops[a].stake as int)
}

/// How the stake sum moves when one operator's record is written.
proof fn lemma_stakes_after_insert(ops: Map<AccountId, Operator>, who: AccountId, op: Operator)
    requires
        ops.dom().finite(),
    ensures
        ops.insert(who, op).dom().finite(),
        map_sum(stakes(ops.insert(who, op))) == if ops.contains_key(who) {
            map_sum(stakes(ops)) - ops[who].stake + op.stake
        } else {
            map_sum(stakes(ops)) + op.stake
        },
        ops.contains_key(who) ==> ops[who].stake <= map_sum(stakes(ops)),
{
    assert(stakes(ops).dom() =~= ops.dom());
    assert(stakes(ops.insert(who, op)) =~= stakes(ops).insert(who, op.stake as int));
    lemma_map_sum_nonneg(stakes(ops));
    if ops.contains_key(who) {
        lemma_map_sum_update(stakes(ops), who, op.stake as int);
    } else {
        lemma_map_sum_insert(stakes(ops), who, op.stake as int);
    }
}

/// How the stake sum moves when an operator leaves.
proof fn lemma_stakes_after_remove(ops: Map<AccountId, Operator>, who: AccountId)
    requires
        ops.dom().finite(),
        ops.contains_key(who),
    ensures
        map_sum(stakes(ops.remove(who))) == map_sum(stakes(ops)) - ops[who].stake,
        ops[who].stake <= map_sum(stakes(ops)),
{
    assert(stakes(ops).dom() =~= ops.dom());
    assert(stakes(ops.remove(who)) =~= stakes(ops).remove(who));
    lemma_map_sum_nonneg(stakes(ops));
    lemma_map_sum_remove(stakes(ops), who);
}

/// `after` keeps the freeze counts of `before`: operators that stay keep
/// their count, new operators start with none, and only operators with none
/// leave.
pub open spec fn freezes_kept(before: Map<AccountId, Operator>, after: Map<AccountId, Operator>) -> bool {
    &&& forall|who: AccountId| #[trigger]
        after.contains_key(who) ==> if before.contains_key(who) {
            after[who].pending_freezes == before[who].pending_freezes
        } else {
            after[who].pending_freezes == 0
        }
    &&& forall|who: AccountId| #[trigger]
        before.contains_key(who) && !after.contains_key(who) ==> before[who].pending_freezes == 0
}

impl Pallet {
    /// Storage consistency: the operator map is well formed and an operator
    /// is frozen exactly while some slash holds a freeze on it.
    pub open spec fn wf(&self) -> bool {
        &&& self.operators.wf()
        &&& forall|who: AccountId| #[trigger]
            self.operators@.contains_key(who) ==> (self.operators@[who].frozen
                <==> self.operators@[who].pending_freezes > 0)
    }

    /// `total_stake` is the sum of the operators' stakes.
    pub open spec fn stake_balanced(&self) -> bool {
        &&& self.operators@.dom().finite()
        &&& self.total_stake == map_sum(stakes(self.operators@))
    }

    pub fn new(config: Config) -> (p: Pallet)
        ensures
            p.wf(),
            p.stake_balanced(),
            p.config == config,
            p.operators@ == Map::<AccountId, Operator>::empty(),
            p.total_stake == 0,
    {
        let p = Pallet { config, operators: KeyMap::new(), total_stake: 0 };
        proof {
            assert(stakes(p.operators@).dom() =~= Set::<AccountId>::empty());
        }
        p
    }

    /// An operator's record.
    pub fn operator(&self, who: &AccountId) -> (r: Option<Operator>)
        requires
            self.wf(),
        ensures
            r == if self.operators@.contains_key(*who) {
                Some(self.operators@[*who])
            } else {
                None::<Operator>
            },
    {
        match self.operators.get(who) {
            Some(op) => Some(*op),
            None => None,
        }
    }

    /// The checks `register` makes before it reserves any stake.
    pub open spec fn register_refusal(&self, origin: Origin, stake: Balance) -> Option<Error> {
        match origin {
            Origin::Signed(who) => if self.operators@.contains_key(who) {
                Some(Error::AlreadyRegistered)
            } else if stake == 0 || stake < self.config.min_stake {
                Some(Error::InsufficientStake)
            } else {
                None
            },
            _ => Some(Error::BadOrigin),
        }
    }

    /// Records a registration once the currency has answered the request to
    /// reserve `stake`: the operator is stored, unfrozen, when the reserve
    /// succeeded.
    pub fn complete_registration(
        &mut self,
        who: AccountId,
        stake: Balance,
        attestation_hash: H256,
        now: BlockNumber,
        reserved: Result<(), ()>,
    ) -> (r: Result<Event, Error>)
        requires
            old(self).wf(),
        ensures
            old(self).stake_balanced() && old(self).total_stake + stake <= u128::MAX ==> final(self).stake_balanced(),
            freezes_kept(old(self).operators@, final(self).operators@),
            final(self).wf(),
            final(self).config == old(self).config,
            old(self).operators@.contains_key(who) ==> r == Err::<Event, Error>(Error::AlreadyRegistered)
                && *final(self) == *old(self),
            !old(self).operators@.contains_key(who) ==> match reserved {
                Ok(()) => {
                    &&& r == Ok::<Event, Error>(Event::Registered { who, stake })
                    &&& final(self).operators@ == old(self).operators@.insert(
                        who,
                        Operator {
                            stake,
                            last_heartbeat_epoch: 0,
                            current_attestation_hash: attestation_hash,
                            registered_at: now,
                            frozen: false,
                            pending_freezes: 0,
                        },
                    )
                    &&& final(self).total_stake == sat_add_u128(old(self).total_stake, stake)
                },
                Err(()) => r == Err::<Event, Error>(Error::ReserveFailed) && *final(self) == *old(self),
            },
    {
        if self.operators.contains_key(&who) {
            return Err(Error::AlreadyRegistered);
        }
        if reserved.is_err() {
            return Err(Error::ReserveFailed);
        }
        self.operators.insert(
            who,
            Operator {
                stake,
                last_heartbeat_epoch: 0,
                current_attestation_hash: attestation_hash,
                registered_at: now,
                frozen: false,
                pending_freezes: 0,
            },
        );
        self.total_stake = self.total_stake.saturating_add(stake);
        proof {
            if old(self).stake_balanced() {
                lemma_stakes_after_insert(old(self).operators@, who, self.operators@[who]);
            }
        }
        Ok(Event::Registered { who, stake })
    }

    /// A signed account registers as an operator with at least the minimum
    /// stake, which is reserved from its balance for the registration's
    /// lifetime.
    pub fn register<C: ReservableCurrency>(
        &mut self,
        currency: &mut CurrencyHandle<C>,
        origin: Origin,
        stake: Balance,
        attestation_hash: H256,
        now: BlockNumber,
    ) -> (r: Result<Event, Error>)
        requires
            old(self).wf(),
        ensures
            old(self).stake_balanced() && old(self).total_stake + stake <= u128::MAX ==> final(self).stake_balanced(),
            freezes_kept(old(self).operators@, final(self).operators@),
            final(self).wf(),
            final(self).config == old(self).config,
            match old(self).register_refusal(origin, stake) {
                Some(e) => r == Err::<Event, Error>(e) && *final(self) == *old(self) && *final(currency)
                    == *old(currency),
                None => match origin {
                    Origin::Signed(who) => final(currency)@ == old(currency)@.push(
                        CurrencyCall::Reserve { who, amount: stake },
                    ) && ({
                        ||| r == Err::<Event, Error>(Error::ReserveFailed) && *final(self) == *old(self)
                        ||| {
                            &&& r == Ok::<Event, Error>(Event::Registered { who, stake })
                            &&& final(self).operators@ == old(self).operators@.insert(
                                who,
                                Operator {
                                    stake,
                                    last_heartbeat_epoch: 0,
                                    current_attestation_hash: attestation_hash,
                                    registered_at: now,
                                    frozen: false,
                                    pending_freezes: 0,
                                },
                            )
                            &&& final(self).total_stake == sat_add_u128(old(self).total_stake, stake)
                        }
                    }),
                    _ => false,
                },
            },
    {
        let who = match origin.signer() {
            Some(who) => who,
            None => return Err(Error::BadOrigin),
        };
        if self.operators.contains_key(&who) {
            return Err(Error::AlreadyRegistered);
        }
        if stake == 0 || stake < self.config.min_stake {
            return Err(Error::InsufficientStake);
        }
        let reserved = currency.reserve(who, stake);
        self.complete_registration(who, stake, attestation_hash, now, reserved)
    }

    /// An operator that no slash holds leaves; its stake is released from
    /// reserve.
    pub fn unregister<C: ReservableCurrency>(&mut self, currency: &mut CurrencyHandle<C>, origin: Origin) -> (r: Result<
        Event,
        Error,
    >)
        requires
            old(self).wf(),
        ensures
            old(self).stake_balanced() ==> final(self).stake_balanced(),
            freezes_kept(old(self).operators@, final(self).operators@),
            final(self).wf(),
            final(self).config == old(self).config,
            r is Err ==> *final(self) == *old(self) && *final(currency) == *old(currency),
            match origin {
                Origin::Signed(who) => if !old(self).operators@.contains_key(who) {
                    r == Err::<Event, Error>(Error::NotRegistered)
                } else if old(self).operators@[who].frozen {
                    r == Err::<Event, Error>(Error::Frozen)
                } else {
                    &&& r == Ok::<Event, Error>(Event::Unregistered { who })
                    &&& final(self).operators@ == old(self).operators@.remove(who)
                    &&& final(currency)@ == old(currency)@.push(
                        CurrencyCall::Unreserve { who, amount: old(self).operators@[who].stake },
                    )
                    &&& final(self).total_stake == sat_sub_u128(
                        old(self).total_stake,
                        old(self).operators@[who].stake,
                    )
                },
                _ => r == Err::<Event, Error>(Error::BadOrigin),
            },
    {
        let who = match origin.signer() {
            Some(who) => who,
            None => return Err(Error::BadOrigin),
        };
        let op = match self.operators.get(&who) {
            Some(op) => *op,
            None => return Err(Error::NotRegistered),
        };
        if op.frozen {
            return Err(Error::Frozen);
        }
        self.operators.remove(&who);
        let _ = currency.unreserve(who, op.stake);
        self.total_stake = self.total_stake.saturating_sub(op.stake);
        proof {
            if old(self).stake_balanced() {
                lemma_stakes_after_remove(old(self).operators@, who);
            }
        }
        Ok(Event::Unregistered { who })
    }

    /// An unfrozen operator reports liveness for an epoch no earlier than
    /// its last one and at most `max_heartbeat_epoch_advance` past it.
    pub fn heartbeat(
        &mut self,
        origin: Origin,
        epoch_number: u64,
        capabilities_summary_hash: H256,
        attestation_report_hash: H256,
    ) -> (r: Result<Event, Error>)
        requires
            old(self).wf(),
        ensures
            old(self).stake_balanced() ==> final(self).stake_balanced(),
            freezes_kept(old(self).operators@, final(self).operators@),
            final(self).wf(),
            final(self).config == old(self).config,
            r is Err ==> *final(self) == *old(self),
            match origin {
                Origin::Signed(who) => if !old(self).operators@.contains_key(who) {
                    r == Err::<Event, Error>(Error::NotRegistered)
                } else if old(self).operators@[who].frozen {
                    r == Err::<Event, Error>(Error::Frozen)
                } else if epoch_number < old(self).operators@[who].last_heartbeat_epoch {
                    r == Err::<Event, Error>(Error::HeartbeatEpochStale)
                } else if epoch_number > sat_add_u64(
                    old(self).operators@[who].last_heartbeat_epoch,
                    old(self).config.max_heartbeat_epoch_advance,
                ) {
                    r == Err::<Event, Error>(Error::HeartbeatEpochTooFarAhead)
                } else {
                    &&& r == Ok::<Event, Error>(Event::Heartbeat { who, epoch: epoch_number })
                    &&& final(self).operators@ == old(self).operators@.insert(
                        who,
                        Operator { last_heartbeat_epoch: epoch_number, ..old(self).operators@[who] },
                    )
                    &&& final(self).total_stake == old(self).total_stake
                },
                _ => r == Err::<Event, Error>(Error::BadOrigin),
            },
    {
        let who = match origin.signer() {
            Some(who) => who,
            None => return Err(Error::BadOrigin),
        };
        let op = match self.operators.get(&who) {
            Some(op) => *op,
            None => return Err(Error::NotRegistered),
        };
        if op.frozen {
            return Err(Error::Frozen);
        }
        if epoch_number < op.last_heartbeat_epoch {
            return Err(Error::HeartbeatEpochStale);
        }
        if epoch_number > op.last_heartbeat_epoch.saturating_add(self.config.max_heartbeat_epoch_advance) {
            return Err(Error::HeartbeatEpochTooFarAhead);
        }
        self.operators.insert(who, Operator { last_heartbeat_epoch: epoch_number, ..op });
        proof {
            if old(self).stake_balanced() {
                lemma_stakes_after_insert(old(self).operators@, who, self.operators@[who]);
            }
        }
        Ok(Event::Heartbeat { who, epoch: epoch_number })
    }

    /// Takes `take` (at most the operator's stake) out of its stake and its
    /// reserve.
    fn burn_stake<C: ReservableCurrency>(&mut self, currency: &mut CurrencyHandle<C>, who: AccountId, take: Balance)
        requires
            old(self).wf(),
            old(self).operators@.contains_key(who),
            take <= old(self).operators@[who].stake,
        ensures
            old(self).stake_balanced() ==> final(self).stake_balanced(),
            final(self).wf(),
            final(self).config == old(self).config,
            final(self).operators@ == old(self).operators@.insert(
                who,
                Operator { stake: (old(self).operators@[who].stake - take) as Balance, ..old(self).operators@[who] },
            ),
            final(self).total_stake == sat_sub_u128(old(self).total_stake, take),
            final(currency)@ == old(currency)@.push(CurrencyCall::SlashReserved { who, amount: take }),
    {
        let op = *self.operators.get(&who).unwrap();
        let _ = currency.slash_reserved(who, take);
        self.operators.insert(who, Operator { stake: op.stake - take, ..op });
        self.total_stake = self.total_stake.saturating_sub(take);
        proof {
            if old(self).stake_balanced() {
                lemma_stakes_after_insert(old(self).operators@, who, self.operators@[who]);
            }
        }
    }

    /// The slash origin (root) burns up to `amount` of an operator's stake.
    pub fn slash<C: ReservableCurrency>(
        &mut self,
        currency: &mut CurrencyHandle<C>,
        origin: Origin,
        who: AccountId,
        amount: Balance,
        reason_code: u16,
    ) -> (r: Result<Event, Error>)
        requires
            old(self).wf(),
        ensures
            old(self).stake_balanced() ==> final(self).stake_balanced(),
            freezes_kept(old(self).operators@, final(self).operators@),
            final(self).wf(),
            final(self).config == old(self).config,
            r is Err ==> *final(self) == *old(self) && *final(currency) == *old(currency),
            !(origin is Root) ==> r == Err::<Event, Error>(Error::BadOrigin),
            origin is Root && !old(self).operators@.contains_key(who) ==> r == Err::<Event, Error>(
                Error::NotRegistered,
            ),
            origin is Root && old(self).operators@.contains_key(who) ==> ({
                let op = old(self).operators@[who];
                let take = if amount <= op.stake { amount } else { op.stake };
                &&& r == Ok::<Event, Error>(Event::Slashed { who, amount, reason_code })
                &&& final(currency)@ == old(currency)@.push(CurrencyCall::SlashReserved { who, amount: take })
                &&& final(self).operators@ == old(self).operators@.insert(
                    who,
                    Operator { stake: (op.stake - take) as Balance, ..op },
                )
                &&& final(self).total_stake == sat_sub_u128(old(self).total_stake, take)
            }),
    {
        if !origin.is_root() {
            return Err(Error::BadOrigin);
        }
        let op = match self.operators.get(&who) {
            Some(op) => *op,
            None => return Err(Error::NotRegistered),
        };
        let take = if amount <= op.stake { amount } else { op.stake };
        self.burn_stake(currency, who, take);
        Ok(Event::Slashed { who, amount, reason_code })
    }

    /// Places one more freeze on an operator.
    pub fn freeze_operator(&mut self, who: &AccountId) -> (r: Result<(), Error>)
        requires
            old(self).wf(),
        ensures
            old(self).stake_balanced() ==> final(self).stake_balanced(),
            final(self).wf(),
            final(self).config == old(self).config,
            final(self).total_stake == old(self).total_stake,
            !old(self).operators@.contains_key(*who) ==> r == Err::<(), Error>(Error::NotRegistered)
                && *final(self) == *old(self),
            old(self).operators@.contains_key(*who) ==> r == Ok::<(), Error>(()) && final(self).operators@
                == old(self).operators@.insert(
                *who,
                Operator {
                    frozen: true,
                    pending_freezes: sat_add_u32(old(self).operators@[*who].pending_freezes, 1),
                    ..old(self).operators@[*who]
                },
            ),
    {
        let op = match self.operators.get(who) {
            Some(op) => *op,
            None => return Err(Error::NotRegistered),
        };
        self.operators.insert(*who, Operator { frozen: true, pending_freezes: op.pending_freezes.saturating_add(1), ..op });
        proof {
            if old(self).stake_balanced() {
                lemma_stakes_after_insert(old(self).operators@, *who, self.operators@[*who]);
            }
        }
        Ok(())
    }

    /// Releases one freeze; the operator thaws when none is left.
    pub fn unfreeze_operator(&mut self, who: &AccountId) -> (r: Result<(), Error>)
        requires
            old(self).wf(),
        ensures
            old(self).stake_balanced() ==> final(self).stake_balanced(),
            final(self).wf(),
            final(self).config == old(self).config,
            final(self).total_stake == old(self).total_stake,
            !old(self).operators@.contains_key(*who) ==> r == Err::<(), Error>(Error::NotRegistered)
                && *final(self) == *old(self),
            old(self).operators@.contains_key(*who) ==> ({
                let pending = sat_sub_u32(old(self).operators@[*who].pending_freezes, 1);
                r == Ok::<(), Error>(()) && final(self).operators@ == old(self).operators@.insert(
                    *who,
                    Operator { frozen: pending > 0, pending_freezes: pending, ..old(self).operators@[*who] },
                )
            }),
    {
        let op = match self.operators.get(who) {
            Some(op) => *op,
            None => return Err(Error::NotRegistered),
        };
        let pending = op.pending_freezes.saturating_sub(1);
        self.operators.insert(*who, Operator { frozen: pending > 0, pending_freezes: pending, ..op });
        proof {
            if old(self).stake_balanced() {
                lemma_stakes_after_insert(old(self).operators@, *who, self.operators@[*who]);
            }
        }
        Ok(())
    }

    /// Executes an upheld slash: burns `bps` basis points (at most all) of
    /// the operator's stake and releases the slash's freeze.
    pub fn slash_operator_by_bps<C: ReservableCurrency>(
        &mut self,
        currency: &mut CurrencyHandle<C>,
        who: &AccountId,
        bps: u16,
        reason_code: u16,
    ) -> (r: Result<Event, Error>)
        requires
            old(self).wf(),
        ensures
            old(self).stake_balanced() ==> final(self).stake_balanced(),
            final(self).wf(),
            final(self).config == old(self).config,
            !old(self).operators@.contains_key(*who) ==> r == Err::<Event, Error>(Error::NotRegistered)
                && *final(self) == *old(self) && *final(currency) == *old(currency),
            old(self).operators@.contains_key(*who) ==> ({
                let op = old(self).operators@[*who];
                let take = bps_of(op.stake, bps);
                let pending = sat_sub_u32(op.pending_freezes, 1);
                &&& r == Ok::<Event, Error>(Event::Slashed { who: *who, amount: take, reason_code })
                &&& final(currency)@ == old(currency)@.push(CurrencyCall::SlashReserved { who: *who, amount: take })
                &&& final(self).operators@ == old(self).operators@.insert(
                    *who,
                    Operator {
                        stake: (op.stake - take) as Balance,
                        frozen: pending > 0,
                        pending_freezes: pending,
                        ..op
                    },
                )
                &&& final(self).total_stake == sat_sub_u128(old(self).total_stake, take)
            }),
    {
        let op = match self.operators.get(who) {
            Some(op) => *op,
            None => return Err(Error::NotRegistered),
        };
        let take = bps_of_exec(op.stake, bps);
        self.burn_stake(currency, *who, take);
        let r = self.unfreeze_operator(who);
        assert(r is Ok);
        Ok(Event::Slashed { who: *who, amount: take, reason_code })
    }
}

} // verus!
