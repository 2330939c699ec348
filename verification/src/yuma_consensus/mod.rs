//! Yuma consensus: stake-weighted scoring of operator quality by a governed
//! set of validators.
//!
//! Per epoch a permitted validator submits a weight vector (operator to a
//! `u16` quality score). When the epoch is computed, every score is clipped
//! to the median score its operator received, weighted by the submitting
//! validator's stake snapshot, and the per-operator totals are turned into
//! incentive shares in basis points.
//!
//! Validator membership is governed: only the root origin adds, removes or
//! re-weights validators, and no entity may hold more than a configured
//! share of the total validator stake once enough entities take part.

use vstd::prelude::*;

use crate::keymap::KeyMap;
use crate::primitives::{
    sat_add_u128, sat_add_u32, sat_mul_u128, sat_sub_u128, sat_sub_u32, saturating_mul_u128,
    AccountId, Origin, BPS,
};

pub mod books;
pub mod compute;
pub mod migration;
pub mod permits;
pub mod scoring;
pub mod shares;
pub mod weights;

verus! {

/// Denominator of incentive shares: a share of 10_000 is the whole epoch.
pub const INCENTIVE_BPS: u128 = 10_000;

/// A governed validator's admission record.
#[derive(Clone, Copy, Debug, PartialEq, Eq, Structural)]
pub struct ValidatorInfo {
    pub stake_weight: u128,
    pub entity_id: u32,
}

/// Runtime configuration of the pallet.
#[derive(Clone, Copy, Debug, PartialEq, Eq, Structural)]
pub struct Config {
    /// Maximum governed validators in the active set.
    pub max_validators: u32,
    /// Maximum validators holding a submission permit.
    pub max_permitted_validators: u32,
    /// Maximum operator scores in one weight vector.
    pub max_weight_vector_len: u32,
    /// Maximum share of the total validator stake one entity may hold, in
    /// basis points.
    pub max_entity_stake_bps: u16,
}

#[derive(Clone, Copy, Debug, PartialEq, Eq, Structural)]
pub enum Event {
    ValidatorAdded { validator: AccountId, stake_weight: u128, entity_id: u32 },
    ValidatorRemoved { validator: AccountId },
    WeightsSubmitted { validator: AccountId, epoch: u64, vector_len: u32 },
    EpochComputed { epoch: u64, operator_count: u32 },
    ValidatorStakeUpdated { validator: AccountId, stake_weight: u128, entity_id: u32 },
    PermitsRotated { permitted_count: u32 },
}

#[derive(Clone, Copy, Debug, PartialEq, Eq, Structural)]
pub enum Error {
    /// The origin is not the one the call requires.
    BadOrigin,
    WeightVectorTooLarge,
    EpochAlreadyComputed,
    UnauthorizedValidator,
    ValidatorAlreadyExists,
    ValidatorNotFound,
    TooManyValidators,
    InvalidValidatorStake,
    EntityStakeCapExceeded,
    EpochAlreadyStarted,
}

/// The pallet's storage.
pub struct Pallet {
    pub config: Config,
    /// `(epoch, validator)` to the validator's submission for the epoch.
    pub weights: KeyMap<(u64, AccountId), scoring::WeightSubmission>,
    /// `(epoch, operator)` to the operator's incentive share.
    pub epoch_incentives: KeyMap<(u64, AccountId), u32>,
    /// Epochs whose incentives have been computed.
    pub computed: KeyMap<u64, ()>,
    /// The governed validator set.
    pub validators: KeyMap<AccountId, ValidatorInfo>,
    /// Validators holding the current submission permit.
    pub permitted_validators: KeyMap<AccountId, ()>,
    pub permit_count: u32,
    /// `(epoch, validator)` to the admission record snapshotted at rotation.
    pub epoch_permitted_validators: KeyMap<(u64, AccountId), ValidatorInfo>,
    pub epoch_permit_count: KeyMap<u64, u32>,
    pub validator_count: u32,
    pub total_validator_stake: u128,
    /// Entity to the total stake weight of its validators.
    pub entity_stake: KeyMap<u32, u128>,
    pub entity_count: u32,
    /// `(epoch, operator)` to the operator's weighted score total.
    pub epoch_score_totals: KeyMap<(u64, AccountId), u128>,
    /// The layout version of this storage.
    pub storage_version: u16,
}

/// Entity stakes and entity count after adding `amount` to entity `e`.
pub open spec fn spec_add_entity_stake(s: (Map<u32, u128>, u32), e: u32, amount: u128) -> (Map<u32, u128>, u32) {
    let prev = if s.0.contains_key(e) { s.0[e] } else { 0 };
    (
        s.0.insert(e, sat_add_u128(prev, amount)),
        if prev == 0 && amount != 0 { sat_add_u32(s.1, 1) } else { s.1 },
    )
}

/// Entity stakes and entity count after removing `amount` from entity `e`;
/// an entity left with no stake is dropped.
pub open spec fn spec_sub_entity_stake(s: (Map<u32, u128>, u32), e: u32, amount: u128) -> (Map<u32, u128>, u32) {
    let prev = if s.0.contains_key(e) { s.0[e] } else { 0 };
    let next = sat_sub_u128(prev, amount);
    if next == 0 {
        (s.0.remove(e), sat_sub_u32(s.1, 1))
    } else {
        (s.0.insert(e, next), s.1)
    }
}

/// An entity's stake as the cap check sees it after moving a validator's
/// stake `old_stake` out of `old_entity` and `new_stake` into `entity_id`.
pub open spec fn adjusted_entity_stake(
    stake: u128,
    e: u32,
    entity_id: u32,
    old_entity: Option<u32>,
    old_stake: u128,
    new_stake: u128,
) -> u128 {
    let s1 = if old_entity == Some(e) { sat_sub_u128(stake, old_stake) } else { stake };
    if e == entity_id { sat_add_u128(s1, new_stake) } else { s1 }
}

/// The concentration cap holds of an entity ledger: once at least
/// `min_entities` entities hold stake and the total is positive, no entity
/// holds more than `cap_bps` basis points of the total.
pub open spec fn caps_in_force_on(
    es: Map<u32, u128>,
    entity_count: u32,
    total: u128,
    cap_bps: u16,
    min_entities: u32,
) -> bool {
    entity_count >= min_entities && total != 0 ==> forall|e: u32| #[trigger]
        es.contains_key(e) ==> sat_mul_u128(es[e], BPS) <= sat_mul_u128(total, cap_bps as u128)
}

/// `after` is `before` with validator `v` admitted with `info`.
pub open spec fn validator_admitted(before: &Pallet, after: &Pallet, v: AccountId, info: ValidatorInfo) -> bool {
    &&& after.validators@ == before.validators@.insert(v, info)
    &&& after.validator_count == sat_add_u32(before.validator_count, 1)
    &&& after.total_validator_stake == sat_add_u128(before.total_validator_stake, info.stake_weight)
    &&& (after.entity_stake@, after.entity_count) == spec_add_entity_stake(
        (before.entity_stake@, before.entity_count),
        info.entity_id,
        info.stake_weight,
    )
    &&& after.permitted_validators@ == before.permitted_validators@
    &&& after.permit_count == before.permit_count
}

/// `after` is `before` with validator `v`, and its permit, dropped.
pub open spec fn validator_dropped(before: &Pallet, after: &Pallet, v: AccountId) -> bool {
    let info = before.validators@[v];
    &&& after.validators@ == before.validators@.remove(v)
    &&& after.permitted_validators@ == before.permitted_validators@.remove(v)
    &&& after.permit_count == if before.permitted_validators@.contains_key(v) {
        sat_sub_u32(before.permit_count, 1)
    } else {
        before.permit_count
    }
    &&& after.validator_count == sat_sub_u32(before.validator_count, 1)
    &&& after.total_validator_stake == sat_sub_u128(before.total_validator_stake, info.stake_weight)
    &&& (after.entity_stake@, after.entity_count) == spec_sub_entity_stake(
        (before.entity_stake@, before.entity_count),
        info.entity_id,
        info.stake_weight,
    )
}

/// Law: the entity count from which the concentration cap is enforced is
/// the least `n` with `n * max(cap_bps, 1) >= 10_000`: that many entities
/// at the cap can together hold the whole stake, one fewer cannot.
pub proof fn lemma_cap_threshold_is_least(p: &Pallet)
    ensures
        ({
            let cap: int = if p.config.max_entity_stake_bps >= 1 { p.config.max_entity_stake_bps as int } else { 1 };
            let n = p.spec_min_entities_for_cap() as int;
            &&& n * cap >= 10_000
            &&& (n - 1) * cap < 10_000
        }),
{
    let cap: int = if p.config.max_entity_stake_bps >= 1 { p.config.max_entity_stake_bps as int } else { 1 };
    let x = 10_000 + cap - 1;
    let q = x / cap;
    vstd::arithmetic::div_mod::lemma_fundamental_div_mod(x, cap);
    assert(0 <= x % cap < cap);
    assert(q <= 10_000) by (nonlinear_arith)
        requires
            x == cap * q + x % cap,
            0 <= x % cap,
            1 <= cap,
            x == 10_000 + cap - 1,
    ;
    assert(q >= 0) by (nonlinear_arith)
        requires
            x == cap * q + x % cap,
            x % cap < cap,
            1 <= cap,
            x >= 0,
    ;
    assert(q * cap >= 10_000 && (q - 1) * cap < 10_000) by (nonlinear_arith)
        requires
            x == cap * q + x % cap,
            0 <= x % cap < cap,
            x == 10_000 + cap - 1,
    ;
}

impl Pallet {
    /// The concentration cap holds of the current validator set.
    pub open spec fn caps_in_force(&self) -> bool {
        caps_in_force_on(
            self.entity_stake@,
            self.entity_count,
            self.total_validator_stake,
            self.config.max_entity_stake_bps,
            self.spec_min_entities_for_cap(),
        )
    }

    /// Storage consistency: every map is well formed, and score totals and
    /// incentives exist only for computed epochs.
    pub open spec fn wf(&self) -> bool {
        &&& self.weights.wf()
        &&& self.epoch_incentives.wf()
        &&& self.computed.wf()
        &&& self.validators.wf()
        &&& self.permitted_validators.wf()
        &&& self.epoch_permitted_validators.wf()
        &&& self.epoch_permit_count.wf()
        &&& self.entity_stake.wf()
        &&& self.epoch_score_totals.wf()
        &&& forall|k: (u64, AccountId)| #[trigger]
            self.epoch_score_totals@.contains_key(k) ==> self.computed@.contains_key(k.0)
        &&& forall|k: (u64, AccountId)| #[trigger]
            self.epoch_incentives@.contains_key(k) ==> self.computed@.contains_key(k.0)
    }

    /// The active set is within its bound.
    pub open spec fn within_capacity(&self) -> bool {
        self.validator_count <= self.config.max_validators
    }

    /// An entity's stake, zero when it has none.
    pub open spec fn entity_stake_of(&self, e: u32) -> u128 {
        if self.entity_stake@.contains_key(e) { self.entity_stake@[e] } else { 0 }
    }

    /// The least number of active entities from which the concentration cap
    /// is enforced: `ceil(10_000 / max(cap_bps, 1))`.
    pub open spec fn spec_min_entities_for_cap(&self) -> u32 {
        let cap: u32 = if self.config.max_entity_stake_bps >= 1 {
            self.config.max_entity_stake_bps as u32
        } else {
            1
        };
        ((10_000 + cap - 1) / cap as int) as u32
    }

    /// Whether moving `old_stake` out of `old_entity` and `new_stake` into
    /// `entity_id` keeps every entity within the concentration cap.
    pub open spec fn caps_hold(
        &self,
        entity_id: u32,
        old_entity: Option<u32>,
        old_stake: u128,
        new_stake: u128,
        active_entities_after: u32,
    ) -> bool {
        let total = sat_add_u128(sat_sub_u128(self.total_validator_stake, old_stake), new_stake);
        let limit = sat_mul_u128(total, self.config.max_entity_stake_bps as u128);
        ||| active_entities_after < self.spec_min_entities_for_cap()
        ||| total == 0
        ||| {
            &&& forall|e: u32| #[trigger]
                self.entity_stake@.contains_key(e) ==> sat_mul_u128(
                    adjusted_entity_stake(self.entity_stake@[e], e, entity_id, old_entity, old_stake, new_stake),
                    BPS,
                ) <= limit
            &&& self.entity_stake_of(entity_id) == 0 ==> sat_mul_u128(new_stake, BPS) <= limit
        }
    }

    /// The number of entities with stake once a validator's `old_stake`
    /// has left `old_entity_id` and `new_stake` joined `new_entity_id`:
    /// unchanged when the validator stays in its entity; otherwise one more
    /// when the new entity had no stake and gains some, and one fewer when
    /// the old entity's stake was no more than the validator's.
    pub open spec fn spec_active_entities_after_update(
        &self,
        old_entity_id: u32,
        new_entity_id: u32,
        old_stake: u128,
        new_stake: u128,
    ) -> u32 {
        let joins = self.entity_stake_of(new_entity_id) == 0 && new_stake != 0;
        let leaves = self.entity_stake_of(old_entity_id) <= old_stake;
        if old_entity_id == new_entity_id {
            self.entity_count
        } else {
            sat_sub_u32(
                if joins { sat_add_u32(self.entity_count, 1) } else { self.entity_count },
                if leaves { 1 } else { 0 },
            )
        }
    }

    /// The per-epoch storage is untouched between `self` and `other`.
    pub open spec fn same_epoch_state(&self, other: &Pallet) -> bool {
        &&& self.config == other.config
        &&& self.weights == other.weights
        &&& self.epoch_incentives == other.epoch_incentives
        &&& self.computed == other.computed
        &&& self.epoch_permitted_validators == other.epoch_permitted_validators
        &&& self.epoch_permit_count == other.epoch_permit_count
        &&& self.epoch_score_totals == other.epoch_score_totals
        &&& self.storage_version == other.storage_version
    }

    /// A pallet with empty storage.
    pub fn new(config: Config) -> (p: Pallet)
        ensures
            p.within_capacity(),
            p.books_balanced(),
            p.wf(),
            p.config == config,
            p.weights@ == Map::<(u64, AccountId), scoring::WeightSubmission>::empty(),
            p.epoch_incentives@ == Map::<(u64, AccountId), u32>::empty(),
            p.computed@ == Map::<u64, ()>::empty(),
            p.validators@ == Map::<AccountId, ValidatorInfo>::empty(),
            p.permitted_validators@ == Map::<AccountId, ()>::empty(),
            p.epoch_permitted_validators@ == Map::<(u64, AccountId), ValidatorInfo>::empty(),
            p.epoch_permit_count@ == Map::<u64, u32>::empty(),
            p.entity_stake@ == Map::<u32, u128>::empty(),
            p.epoch_score_totals@ == Map::<(u64, AccountId), u128>::empty(),
            p.permit_count == 0,
            p.validator_count == 0,
            p.total_validator_stake == 0,
            p.entity_count == 0,
            p.storage_version == migration::STORAGE_VERSION,
    {
        let p = Pallet {
            config,
            weights: KeyMap::new(),
            epoch_incentives: KeyMap::new(),
            computed: KeyMap::new(),
            validators: KeyMap::new(),
            permitted_validators: KeyMap::new(),
            permit_count: 0,
            epoch_permitted_validators: KeyMap::new(),
            epoch_permit_count: KeyMap::new(),
            validator_count: 0,
            total_validator_stake: 0,
            entity_stake: KeyMap::new(),
            entity_count: 0,
            epoch_score_totals: KeyMap::new(),
            storage_version: migration::STORAGE_VERSION,
        };
        proof {
            books::lemma_empty_books(&p);
        }
        p
    }

    /// `ceil(10_000 / max(cap_bps, 1))`.
    pub fn min_entities_for_cap(&self) -> (n: u32)
        ensures
            n == self.spec_min_entities_for_cap(),
    {
        let bps = self.config.max_entity_stake_bps as u32;
        let cap: u32 = if bps >= 1 { bps } else { 1 };
        (10_000u32 + cap - 1) / cap
    }

    fn entity_stake_get(&self, e: u32) -> (s: u128)
        requires
            self.entity_stake.wf(),
        ensures
            s == self.entity_stake_of(e),
    {
        match self.entity_stake.get(&e) {
            Some(s) => *s,
            None => 0,
        }
    }

    /// Checks the entity concentration cap for a stake move.
    pub fn ensure_entity_caps(
        &self,
        entity_id: u32,
        old_entity_id: Option<u32>,
        old_stake: u128,
        new_stake: u128,
        active_entities_after: u32,
    ) -> (r: Result<(), Error>)
        requires
            self.wf(),
        ensures
            r is Ok <==> self.caps_hold(entity_id, old_entity_id, old_stake, new_stake, active_entities_after),
            r is Err ==> r == Err::<(), Error>(Error::EntityStakeCapExceeded),
    {
        if active_entities_after < self.min_entities_for_cap() {
            return Ok(());
        }
        let total = self.total_validator_stake.saturating_sub(old_stake).saturating_add(new_stake);
        if total == 0 {
            return Ok(());
        }
        let cap_bps = self.config.max_entity_stake_bps as u128;
        let limit = saturating_mul_u128(total, cap_bps);
        let n = self.entity_stake.len();
        let mut i: usize = 0;
        while i < n
            invariant
                self.wf(),
                n == self.entity_stake.keys().len(),
                i <= n,
                !(active_entities_after < self.spec_min_entities_for_cap()),
                total != 0,
                total == sat_add_u128(sat_sub_u128(self.total_validator_stake, old_stake), new_stake),
                limit == sat_mul_u128(total, self.config.max_entity_stake_bps as u128),
                forall|j: int| 0 <= j < i ==> {
                    let e = #[trigger] self.entity_stake.keys()[j];
                    sat_mul_u128(
                        adjusted_entity_stake(self.entity_stake@[e], e, entity_id, old_entity_id, old_stake, new_stake),
                        BPS,
                    ) <= limit
                },
            decreases n - i,
        {
            let entity = self.entity_stake.key_at(i);
            let raw = *self.entity_stake.value_at(i);
            let mut stake = raw;
            if old_entity_id == Some(entity) {
                stake = stake.saturating_sub(old_stake);
            }
            if entity == entity_id {
                stake = stake.saturating_add(new_stake);
            }
            assert(stake == adjusted_entity_stake(raw, entity, entity_id, old_entity_id, old_stake, new_stake));
            if saturating_mul_u128(stake, INCENTIVE_BPS) > limit {
                assert(self.entity_stake@.contains_key(entity));
                assert(!(sat_mul_u128(
                    adjusted_entity_stake(self.entity_stake@[entity], entity, entity_id, old_entity_id, old_stake, new_stake),
                    BPS,
                ) <= limit));
                assert(!(active_entities_after < self.spec_min_entities_for_cap()));
                assert(total != 0);
                assert(!self.caps_hold(entity_id, old_entity_id, old_stake, new_stake, active_entities_after));
                return Err(Error::EntityStakeCapExceeded);
            }
            i += 1;
        }
        proof {
            self.entity_stake.lemma_keys();
            assert forall|e: u32| #[trigger] self.entity_stake@.contains_key(e) implies sat_mul_u128(
                adjusted_entity_stake(self.entity_stake@[e], e, entity_id, old_entity_id, old_stake, new_stake),
                BPS,
            ) <= limit by {
                let j = choose|j: int| 0 <= j < self.entity_stake.keys().len() && self.entity_stake.keys()[j] == e;
                assert(self.entity_stake.keys()[j] == e);
            }
        }
        if self.entity_stake_get(entity_id) == 0 {
            if saturating_mul_u128(new_stake, INCENTIVE_BPS) > limit {
                return Err(Error::EntityStakeCapExceeded);
            }
        }
        Ok(())
    }

    /// Adds `amount` to entity `entity_id`, counting the entity as active if
    /// it had no stake.
    fn add_entity_stake(&mut self, entity_id: u32, amount: u128)
        requires
            old(self).wf(),
        ensures
            final(self).wf(),
            (final(self).entity_stake@, final(self).entity_count) == spec_add_entity_stake(
                (old(self).entity_stake@, old(self).entity_count),
                entity_id,
                amount,
            ),
            final(self).same_epoch_state(old(self)),
            final(self).validators == old(self).validators,
            final(self).permitted_validators == old(self).permitted_validators,
            final(self).permit_count == old(self).permit_count,
            final(self).validator_count == old(self).validator_count,
            final(self).total_validator_stake == old(self).total_validator_stake,
    {
        let prev = self.entity_stake_get(entity_id);
        self.entity_stake.insert(entity_id, prev.saturating_add(amount));
        if prev == 0 && amount != 0 {
            self.entity_count = self.entity_count.saturating_add(1);
        }
    }

    /// Removes `amount` from entity `entity_id`, dropping the entity once it
    /// has no stake left.
    fn sub_entity_stake(&mut self, entity_id: u32, amount: u128)
        requires
            old(self).wf(),
        ensures
            final(self).wf(),
            (final(self).entity_stake@, final(self).entity_count) == spec_sub_entity_stake(
                (old(self).entity_stake@, old(self).entity_count),
                entity_id,
                amount,
            ),
            final(self).same_epoch_state(old(self)),
            final(self).validators == old(self).validators,
            final(self).permitted_validators == old(self).permitted_validators,
            final(self).permit_count == old(self).permit_count,
            final(self).validator_count == old(self).validator_count,
            final(self).total_validator_stake == old(self).total_validator_stake,
    {
        let prev = self.entity_stake_get(entity_id);
        let next = prev.saturating_sub(amount);
        if next == 0 {
            self.entity_stake.remove(&entity_id);
            self.entity_count = self.entity_count.saturating_sub(1);
        } else {
            self.entity_stake.insert(entity_id, next);
        }
    }

    /// The entity count after a validator moves between entities.
    pub fn active_entities_after_update(
        &self,
        old_entity_id: u32,
        new_entity_id: u32,
        old_stake: u128,
        new_stake: u128,
    ) -> (n: u32)
        requires
            self.wf(),
        ensures
            n == self.spec_active_entities_after_update(old_entity_id, new_entity_id, old_stake, new_stake),
    {
        let mut count = self.entity_count;
        if old_entity_id != new_entity_id {
            if self.entity_stake_get(new_entity_id) == 0 && new_stake != 0 {
                count = count.saturating_add(1);
            }
            if self.entity_stake_get(old_entity_id) <= old_stake {
                count = count.saturating_sub(1);
            }
        }
        count
    }

    /// Governance adds a validator with a stake weight and an entity.
    pub fn add_validator(
        &mut self,
        origin: Origin,
        validator: AccountId,
        stake_weight: u128,
        entity_id: u32,
    ) -> (r: Result<Event, Error>)
        requires
            old(self).wf(),
        ensures
            r is Ok ==> final(self).caps_in_force(),
            old(self).within_capacity() ==> final(self).within_capacity(),
            old(self).books_balanced() && old(self).validator_count < u32::MAX && old(self).entity_count < u32::MAX
                && old(self).total_validator_stake + stake_weight <= u128::MAX ==> final(self).books_balanced(),
            final(self).wf(),
            r is Err ==> *final(self) == *old(self),
            !(origin is Root) ==> r == Err::<Event, Error>(Error::BadOrigin),
            origin is Root && stake_weight == 0 ==> r == Err::<Event, Error>(Error::InvalidValidatorStake),
            origin is Root && stake_weight != 0 && old(self).validators@.contains_key(validator) ==> r
                == Err::<Event, Error>(Error::ValidatorAlreadyExists),
            origin is Root && stake_weight != 0 && !old(self).validators@.contains_key(validator)
                && sat_add_u32(old(self).validator_count, 1) > old(self).config.max_validators ==> r
                == Err::<Event, Error>(Error::TooManyValidators),
            origin is Root && stake_weight != 0 && !old(self).validators@.contains_key(validator)
                && sat_add_u32(old(self).validator_count, 1) <= old(self).config.max_validators ==> ({
                let active = sat_add_u32(
                    old(self).entity_count,
                    if old(self).entity_stake_of(entity_id) == 0 { 1u32 } else { 0u32 },
                );
                if old(self).caps_hold(entity_id, None, 0, stake_weight, active) {
                    &&& r == Ok::<Event, Error>(Event::ValidatorAdded { validator, stake_weight, entity_id })
                    &&& validator_admitted(old(self), final(self), validator, ValidatorInfo { stake_weight, entity_id })
                    &&& final(self).validators@ == old(self).validators@.insert(
                        validator,
                        ValidatorInfo { stake_weight, entity_id },
                    )
                    &&& final(self).validator_count == sat_add_u32(old(self).validator_count, 1)
                    &&& final(self).total_validator_stake == sat_add_u128(
                        old(self).total_validator_stake,
                        stake_weight,
                    )
                    &&& (final(self).entity_stake@, final(self).entity_count) == spec_add_entity_stake(
                        (old(self).entity_stake@, old(self).entity_count),
                        entity_id,
                        stake_weight,
                    )
                    &&& final(self).same_epoch_state(old(self))
                    &&& final(self).permitted_validators == old(self).permitted_validators
                    &&& final(self).permit_count == old(self).permit_count
                } else {
                    r == Err::<Event, Error>(Error::EntityStakeCapExceeded)
                }
            }),
    {
        if !origin.is_root() {
            return Err(Error::BadOrigin);
        }
        if stake_weight == 0 {
            return Err(Error::InvalidValidatorStake);
        }
        if self.validators.contains_key(&validator) {
            return Err(Error::ValidatorAlreadyExists);
        }
        let next = self.validator_count.saturating_add(1);
        if next > self.config.max_validators {
            return Err(Error::TooManyValidators);
        }
        let new_entity: u32 = if self.entity_stake_get(entity_id) == 0 { 1 } else { 0 };
        let active_entities = self.entity_count.saturating_add(new_entity);
        self.ensure_entity_caps(entity_id, None, 0, stake_weight, active_entities)?;
        self.validators.insert(validator, ValidatorInfo { stake_weight, entity_id });
        self.validator_count = next;
        self.total_validator_stake = self.total_validator_stake.saturating_add(stake_weight);
        self.add_entity_stake(entity_id, stake_weight);
        proof {
            let before = old(self);
            books::lemma_caps_after_admit(before, entity_id, stake_weight, active_entities);
            if before.books_balanced() && before.validator_count < u32::MAX && before.entity_count < u32::MAX
                && before.total_validator_stake + stake_weight <= u128::MAX {
                books::lemma_ledger_admit(
                    before.validators@,
                    before.total_validator_stake,
                    before.entity_stake@,
                    before.entity_count,
                    validator,
                    ValidatorInfo { stake_weight, entity_id },
                );
                assert(self.validators@.dom() =~= before.validators@.dom().insert(validator));
            }
        }
        Ok(Event::ValidatorAdded { validator, stake_weight, entity_id })
    }

    /// Governance removes a validator; its current permit, if any, goes
    /// with it. Permits already snapshotted for an epoch stay.
    pub fn remove_validator(&mut self, origin: Origin, validator: AccountId) -> (r: Result<Event, Error>)
        requires
            old(self).wf(),
        ensures
            old(self).within_capacity() ==> final(self).within_capacity(),
            old(self).books_balanced() ==> final(self).books_balanced(),
            final(self).wf(),
            r is Err ==> *final(self) == *old(self),
            !(origin is Root) ==> r == Err::<Event, Error>(Error::BadOrigin),
            origin is Root && !old(self).validators@.contains_key(validator) ==> r == Err::<Event, Error>(
                Error::ValidatorNotFound,
            ),
            origin is Root && old(self).validators@.contains_key(validator) ==> ({
                let info = old(self).validators@[validator];
                &&& r == Ok::<Event, Error>(Event::ValidatorRemoved { validator })
                &&& validator_dropped(old(self), final(self), validator)
                &&& final(self).validators@ == old(self).validators@.remove(validator)
                &&& final(self).permitted_validators@ == old(self).permitted_validators@.remove(validator)
                &&& final(self).permit_count == if old(self).permitted_validators@.contains_key(validator) {
                    sat_sub_u32(old(self).permit_count, 1)
                } else {
                    old(self).permit_count
                }
                &&& final(self).validator_count == sat_sub_u32(old(self).validator_count, 1)
                &&& final(self).total_validator_stake == sat_sub_u128(
                    old(self).total_validator_stake,
                    info.stake_weight,
                )
                &&& (final(self).entity_stake@, final(self).entity_count) == spec_sub_entity_stake(
                    (old(self).entity_stake@, old(self).entity_count),
                    info.entity_id,
                    info.stake_weight,
                )
                &&& final(self).same_epoch_state(old(self))
            }),
    {
        if !origin.is_root() {
            return Err(Error::BadOrigin);
        }
        let info = match self.validators.get(&validator) {
            Some(info) => *info,
            None => return Err(Error::ValidatorNotFound),
        };
        self.validators.remove(&validator);
        if self.permitted_validators.remove(&validator).is_some() {
            self.permit_count = self.permit_count.saturating_sub(1);
        }
        self.validator_count = self.validator_count.saturating_sub(1);
        self.total_validator_stake = self.total_validator_stake.saturating_sub(info.stake_weight);
        self.sub_entity_stake(info.entity_id, info.stake_weight);
        proof {
            let before = old(self);
            if before.books_balanced() {
                books::lemma_ledger_drop(
                    before.validators@,
                    before.total_validator_stake,
                    before.entity_stake@,
                    before.entity_count,
                    validator,
                );
                assert(self.validators@.dom() =~= before.validators@.dom().remove(validator));
                assert(self.permitted_validators@.dom() =~= before.permitted_validators@.dom().remove(validator));
            }
        }
        Ok(Event::ValidatorRemoved { validator })
    }

    /// Governance changes a validator's stake weight and entity.
    pub fn update_validator_stake(
        &mut self,
        origin: Origin,
        validator: AccountId,
        stake_weight: u128,
        entity_id: u32,
    ) -> (r: Result<Event, Error>)
        requires
            old(self).wf(),
        ensures
            old(self).books_balanced() && old(self).entity_count < u32::MAX && r is Ok ==> final(self).caps_in_force(),
            old(self).within_capacity() ==> final(self).within_capacity(),
            old(self).books_balanced() && old(self).entity_count < u32::MAX && (old(self).validators@.contains_key(validator)
                ==> old(self).total_validator_stake - old(self).validators@[validator].stake_weight + stake_weight <= u128::MAX)
                ==> final(self).books_balanced(),
            final(self).wf(),
            r is Err ==> *final(self) == *old(self),
            !(origin is Root) ==> r == Err::<Event, Error>(Error::BadOrigin),
            origin is Root && stake_weight == 0 ==> r == Err::<Event, Error>(Error::InvalidValidatorStake),
            origin is Root && stake_weight != 0 && !old(self).validators@.contains_key(validator) ==> r
                == Err::<Event, Error>(Error::ValidatorNotFound),
            origin is Root && stake_weight != 0 && old(self).validators@.contains_key(validator) ==> ({
                let prev = old(self).validators@[validator];
                let active = old(self).spec_active_entities_after_update(
                    prev.entity_id,
                    entity_id,
                    prev.stake_weight,
                    stake_weight,
                );
                if old(self).caps_hold(entity_id, Some(prev.entity_id), prev.stake_weight, stake_weight, active) {
                    &&& r == Ok::<Event, Error>(Event::ValidatorStakeUpdated { validator, stake_weight, entity_id })
                    &&& final(self).validators@ == old(self).validators@.insert(
                        validator,
                        ValidatorInfo { stake_weight, entity_id },
                    )
                    &&& final(self).validator_count == old(self).validator_count
                    &&& final(self).total_validator_stake == sat_add_u128(
                        sat_sub_u128(old(self).total_validator_stake, prev.stake_weight),
                        stake_weight,
                    )
                    &&& (final(self).entity_stake@, final(self).entity_count) == spec_add_entity_stake(
                        spec_sub_entity_stake(
                            (old(self).entity_stake@, old(self).entity_count),
                            prev.entity_id,
                            prev.stake_weight,
                        ),
                        entity_id,
                        stake_weight,
                    )
                    &&& final(self).same_epoch_state(old(self))
                    &&& final(self).permitted_validators == old(self).permitted_validators
                    &&& final(self).permit_count == old(self).permit_count
                } else {
                    r == Err::<Event, Error>(Error::EntityStakeCapExceeded)
                }
            }),
    {
        if !origin.is_root() {
            return Err(Error::BadOrigin);
        }
        if stake_weight == 0 {
            return Err(Error::InvalidValidatorStake);
        }
        let prev = match self.validators.get(&validator) {
            Some(info) => *info,
            None => return Err(Error::ValidatorNotFound),
        };
        let active_entities = self.active_entities_after_update(
            prev.entity_id,
            entity_id,
            prev.stake_weight,
            stake_weight,
        );
        self.ensure_entity_caps(
            entity_id,
            Some(prev.entity_id),
            prev.stake_weight,
            stake_weight,
            active_entities,
        )?;
        self.validators.insert(validator, ValidatorInfo { stake_weight, entity_id });
        self.total_validator_stake = self.total_validator_stake.saturating_sub(prev.stake_weight).saturating_add(
            stake_weight,
        );
        self.sub_entity_stake(prev.entity_id, prev.stake_weight);
        self.add_entity_stake(entity_id, stake_weight);
        proof {
            let before = old(self);
            if before.books_balanced() && before.entity_count < u32::MAX {
                books::lemma_caps_after_move(before, validator, entity_id, stake_weight, active_entities);
            }
            if before.books_balanced() && before.entity_count < u32::MAX && before.total_validator_stake
                - prev.stake_weight + stake_weight <= u128::MAX {
                let v = before.validators@;
                books::lemma_ledger_drop(v, before.total_validator_stake, before.entity_stake@, before.entity_count, validator);
                let (es1, c1) = spec_sub_entity_stake(
                    (before.entity_stake@, before.entity_count),
                    prev.entity_id,
                    prev.stake_weight,
                );
                books::lemma_ledger_admit(
                    v.remove(validator),
                    (before.total_validator_stake - prev.stake_weight) as u128,
                    es1,
                    c1,
                    validator,
                    ValidatorInfo { stake_weight, entity_id },
                );
                assert(v.remove(validator).insert(validator, ValidatorInfo { stake_weight, entity_id }) =~= self.validators@);
                assert(self.validators@.dom() =~= v.dom());
            }
        }
        Ok(Event::ValidatorStakeUpdated { validator, stake_weight, entity_id })
    }

    /// Whether `account` holds the current submission permit.
    pub fn contains(&self, account: &AccountId) -> (b: bool)
        requires
            self.wf(),
        ensures
            b == self.permitted_validators@.contains_key(*account),
    {
        self.permitted_validators.contains_key(account)
    }

    /// A validator's admission record.
    pub fn validator(&self, account: &AccountId) -> (r: Option<ValidatorInfo>)
        requires
            self.wf(),
        ensures
            r == if self.validators@.contains_key(*account) {
                Some(self.validators@[*account])
            } else {
                None::<ValidatorInfo>
            },
    {
        match self.validators.get(account) {
            Some(info) => Some(*info),
            None => None,
        }
    }

    /// An operator's incentive share for an epoch (zero when none).
    pub fn epoch_incentive(&self, epoch: u64, operator: AccountId) -> (s: u32)
        requires
            self.wf(),
        ensures
            s == if self.epoch_incentives@.contains_key((epoch, operator)) {
                self.epoch_incentives@[(epoch, operator)]
            } else {
                0
            },
    {
        match self.epoch_incentives.get(&(epoch, operator)) {
            Some(s) => *s,
            None => 0,
        }
    }

    /// An operator's weighted score total for an epoch (zero when none).
    pub fn epoch_score_total(&self, epoch: u64, operator: AccountId) -> (s: u128)
        requires
            self.wf(),
        ensures
            s == if self.epoch_score_totals@.contains_key((epoch, operator)) {
                self.epoch_score_totals@[(epoch, operator)]
            } else {
                0
            },
    {
        match self.epoch_score_totals.get(&(epoch, operator)) {
            Some(s) => *s,
            None => 0,
        }
    }

    /// Whether an epoch's incentives have been computed.
    pub fn is_computed(&self, epoch: u64) -> (b: bool)
        requires
            self.wf(),
        ensures
            b == self.computed@.contains_key(epoch),
    {
        self.computed.contains_key(&epoch)
    }
}

} // verus!
