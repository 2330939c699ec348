//! The validator ledger: the counters and totals the pallet keeps beside
//! the validator set, and what they must equal.

use vstd::prelude::*;

use super::{adjusted_entity_stake, caps_in_force_on, validator_admitted, validator_dropped, spec_add_entity_stake, spec_sub_entity_stake, Pallet, ValidatorInfo};
use crate::primitives::{sat_add_u128, sat_sub_u128, AccountId};
use crate::sums::{lemma_map_sum_insert, lemma_map_sum_part, lemma_map_sum_positive, lemma_map_sum_remove, map_sum};

verus! {

broadcast use vstd::set::group_set_axioms, vstd::map::group_map_axioms;

/// Each validator's stake weight.
pub open spec fn stakes(v: Map<AccountId, ValidatorInfo>) -> Map<AccountId, int> {
    Map::new(|a: AccountId| v.contains_key(a), |a: AccountId| v[a].stake_weight as int)
}

/// The stake weights of entity `e`'s validators.
pub open spec fn entity_stakes(v: Map<AccountId, ValidatorInfo>, e: u32) -> Map<AccountId, int> {
    Map::new(|a: AccountId| v.contains_key(a) && v[a].entity_id == e, |a: AccountId| v[a].stake_weight as int)
}

/// An entity's recorded stake, zero when it has no entry.
pub open spec fn recorded(es: Map<u32, u128>, e: u32) -> int {
    if es.contains_key(e) { es[e] as int } else { 0 }
}

/// The ledger kept beside a validator set `v`: every validator has a
/// positive stake weight, `total` is their sum, each entity's recorded
/// stake is the sum over its validators, only entities with stake are
/// recorded, and `entity_count` is how many are.
pub open spec fn ledger_ok(v: Map<AccountId, ValidatorInfo>, total: u128, es: Map<u32, u128>, entity_count: u32) -> bool {
    &&& v.dom().finite()
    &&& es.dom().finite()
    &&& forall|a: AccountId| #[trigger] v.contains_key(a) ==> v[a].stake_weight > 0
    &&& total == map_sum(stakes(v))
    &&& forall|e: u32| #[trigger] recorded(es, e) == map_sum(entity_stakes(v, e))
    &&& forall|e: u32| #[trigger] es.contains_key(e) ==> es[e] > 0
    &&& entity_count == es.dom().len()
}

proof fn lemma_stake_maps_finite(v: Map<AccountId, ValidatorInfo>, e: u32)
    requires
        v.dom().finite(),
    ensures
        stakes(v).dom() == v.dom(),
        stakes(v).dom().finite(),
        entity_stakes(v, e).dom().finite(),
        entity_stakes(v, e).dom().subset_of(v.dom()),
{
    assert(stakes(v).dom() =~= v.dom());
    vstd::set_lib::lemma_len_subset(entity_stakes(v, e).dom(), v.dom());
}

/// An entity's stake is at most the total, and at least the stake of each
/// of its validators.
proof fn lemma_entity_within_total(v: Map<AccountId, ValidatorInfo>, e: u32)
    requires
        v.dom().finite(),
        forall|a: AccountId| #[trigger] v.contains_key(a) ==> v[a].stake_weight > 0,
    ensures
        map_sum(entity_stakes(v, e)) <= map_sum(stakes(v)),
        forall|a: AccountId| v.contains_key(a) && v[a].entity_id == e ==> #[trigger] v[a].stake_weight <= map_sum(
            entity_stakes(v, e),
        ),
{
    lemma_stake_maps_finite(v, e);
    lemma_map_sum_part(entity_stakes(v, e), stakes(v));
    assert forall|a: AccountId| v.contains_key(a) && v[a].entity_id == e implies #[trigger] v[a].stake_weight
        <= map_sum(entity_stakes(v, e)) by {
        lemma_map_sum_remove(entity_stakes(v, e), a);
        assert(entity_stakes(v, e).remove(a).dom() =~= entity_stakes(v, e).dom().remove(a));
        lemma_map_sum_positive(entity_stakes(v, e).remove(a));
    }
}

/// Admitting a new validator `a` with a positive stake `s` in entity `e`
/// keeps the ledger, when neither the total nor the entity count
/// saturates.
pub proof fn lemma_ledger_admit(
    v: Map<AccountId, ValidatorInfo>,
    total: u128,
    es: Map<u32, u128>,
    entity_count: u32,
    a: AccountId,
    info: ValidatorInfo,
)
    requires
        ledger_ok(v, total, es, entity_count),
        !v.contains_key(a),
        info.stake_weight > 0,
        total + info.stake_weight <= u128::MAX,
        entity_count < u32::MAX,
    ensures
        ({
            let (es2, count2) = spec_add_entity_stake((es, entity_count), info.entity_id, info.stake_weight);
            ledger_ok(v.insert(a, info), sat_add_u128(total, info.stake_weight), es2, count2)
        }),
{
    let v2 = v.insert(a, info);
    let e0 = info.entity_id;
    let s = info.stake_weight;
    let (es2, count2) = spec_add_entity_stake((es, entity_count), e0, s);
    lemma_stake_maps_finite(v, e0);
    assert(stakes(v2) =~= stakes(v).insert(a, s as int));
    lemma_map_sum_insert(stakes(v), a, s as int);
    lemma_entity_within_total(v, e0);
    assert forall|e: u32| #[trigger] recorded(es2, e) == map_sum(entity_stakes(v2, e)) by {
        lemma_stake_maps_finite(v, e);
        assert(recorded(es, e) == map_sum(entity_stakes(v, e)));
        if e == e0 {
            assert(entity_stakes(v2, e) =~= entity_stakes(v, e).insert(a, s as int));
            lemma_map_sum_insert(entity_stakes(v, e), a, s as int);
        } else {
            assert(entity_stakes(v2, e) =~= entity_stakes(v, e));
        }
    }
    if !es.contains_key(e0) {
        assert(es2.dom() =~= es.dom().insert(e0));
    } else {
        assert(es2.dom() =~= es.dom());
    }
}

/// Dropping validator `a` keeps the ledger.
pub proof fn lemma_ledger_drop(
    v: Map<AccountId, ValidatorInfo>,
    total: u128,
    es: Map<u32, u128>,
    entity_count: u32,
    a: AccountId,
)
    requires
        ledger_ok(v, total, es, entity_count),
        v.contains_key(a),
    ensures
        ({
            let info = v[a];
            let (es2, count2) = spec_sub_entity_stake((es, entity_count), info.entity_id, info.stake_weight);
            &&& ledger_ok(v.remove(a), sat_sub_u128(total, info.stake_weight), es2, count2)
            &&& sat_sub_u128(total, info.stake_weight) == total - info.stake_weight
        }),
{
    let info = v[a];
    let v2 = v.remove(a);
    let e0 = info.entity_id;
    let s = info.stake_weight;
    let (es2, count2) = spec_sub_entity_stake((es, entity_count), e0, s);
    lemma_stake_maps_finite(v, e0);
    assert(stakes(v2) =~= stakes(v).remove(a));
    lemma_map_sum_remove(stakes(v), a);
    lemma_entity_within_total(v, e0);
    assert(v[a].stake_weight <= map_sum(entity_stakes(v, e0)));
    assert(recorded(es, e0) == map_sum(entity_stakes(v, e0)));
    assert forall|e: u32| #[trigger] recorded(es2, e) == map_sum(entity_stakes(v2, e)) by {
        lemma_stake_maps_finite(v, e);
        assert(recorded(es, e) == map_sum(entity_stakes(v, e)));
        if e == e0 {
            assert(entity_stakes(v2, e) =~= entity_stakes(v, e).remove(a));
            lemma_map_sum_remove(entity_stakes(v, e), a);
        } else {
            assert(entity_stakes(v2, e) =~= entity_stakes(v, e));
        }
    }
    assert(es.contains_key(e0));
    if recorded(es, e0) - s == 0 {
        assert(es2.dom() =~= es.dom().remove(e0));
    } else {
        assert(es2.dom() =~= es.dom());
    }
}


impl Pallet {
    /// The pallet's books balance: the ledger matches the validator set,
    /// `validator_count` counts the validators, and the current permits go
    /// to validators only, `permit_count` of them.
    pub open spec fn books_balanced(&self) -> bool {
        &&& ledger_ok(self.validators@, self.total_validator_stake, self.entity_stake@, self.entity_count)
        &&& self.validator_count == self.validators@.dom().len()
        &&& self.permitted_validators@.dom().subset_of(self.validators@.dom())
        &&& self.permit_count == self.permitted_validators@.dom().len()
    }
}

/// An empty validator set with zero counters balances.
pub proof fn lemma_empty_books(p: &Pallet)
    requires
        p.validators@ == Map::<AccountId, ValidatorInfo>::empty(),
        p.entity_stake@ == Map::<u32, u128>::empty(),
        p.permitted_validators@ == Map::<AccountId, ()>::empty(),
        p.total_validator_stake == 0,
        p.validator_count == 0,
        p.entity_count == 0,
        p.permit_count == 0,
    ensures
        p.books_balanced(),
{
    assert(stakes(p.validators@).dom() =~= Set::<AccountId>::empty());
    assert forall|e: u32| #[trigger] recorded(p.entity_stake@, e) == map_sum(entity_stakes(p.validators@, e)) by {
        assert(entity_stakes(p.validators@, e).dom() =~= Set::<AccountId>::empty());
    }
}

/// Replacing the permits by a set of validators, counted (capped at
/// `u32::MAX`), keeps the books.
pub proof fn lemma_permits_replaced(before: &Pallet, after: &Pallet)
    requires
        before.books_balanced(),
        after.validators@ == before.validators@,
        after.total_validator_stake == before.total_validator_stake,
        after.entity_stake@ == before.entity_stake@,
        after.entity_count == before.entity_count,
        after.validator_count == before.validator_count,
        after.permitted_validators@.dom().subset_of(after.validators@.dom()),
        after.permit_count == if after.permitted_validators@.dom().len() <= u32::MAX {
            after.permitted_validators@.dom().len() as u32
        } else {
            u32::MAX
        },
    ensures
        after.books_balanced(),
{
    vstd::set_lib::lemma_len_subset(after.permitted_validators@.dom(), after.validators@.dom());
}


/// A validator admitted with a positive stake after the cap check passed
/// leaves the cap in force.
pub(crate) proof fn lemma_caps_after_admit(p: &Pallet, entity_id: u32, stake: u128, active: u32)
    requires
        p.caps_hold(entity_id, None, 0, stake, active),
        stake != 0,
        active == crate::primitives::sat_add_u32(
            p.entity_count,
            if p.entity_stake_of(entity_id) == 0 { 1u32 } else { 0u32 },
        ),
    ensures
        ({
            let (es2, count2) = spec_add_entity_stake((p.entity_stake@, p.entity_count), entity_id, stake);
            caps_in_force_on(
                es2,
                count2,
                sat_add_u128(p.total_validator_stake, stake),
                p.config.max_entity_stake_bps,
                p.spec_min_entities_for_cap(),
            )
        }),
{
    let es = p.entity_stake@;
    let (es2, count2) = spec_add_entity_stake((es, p.entity_count), entity_id, stake);
    assert(sat_sub_u128(p.total_validator_stake, 0) == p.total_validator_stake);
    assert forall|e: u32| #[trigger] es2.contains_key(e) implies es2[e] == (if es.contains_key(e) {
        adjusted_entity_stake(es[e], e, entity_id, None, 0, stake)
    } else {
        stake
    }) by {}
}

/// A validator moved to a new stake and entity after the cap check passed
/// leaves the cap in force, when the books balance and the entity count is
/// below `u32::MAX`.
pub(crate) proof fn lemma_caps_after_move(
    p: &Pallet,
    validator: AccountId,
    entity_id: u32,
    stake: u128,
    active: u32,
)
    requires
        p.books_balanced(),
        p.entity_count < u32::MAX,
        p.validators@.contains_key(validator),
        stake != 0,
        p.caps_hold(
            entity_id,
            Some(p.validators@[validator].entity_id),
            p.validators@[validator].stake_weight,
            stake,
            active,
        ),
        active == p.spec_active_entities_after_update(
            p.validators@[validator].entity_id,
            entity_id,
            p.validators@[validator].stake_weight,
            stake,
        ),
    ensures
        ({
            let prev = p.validators@[validator];
            let (es2, count2) = spec_add_entity_stake(
                spec_sub_entity_stake((p.entity_stake@, p.entity_count), prev.entity_id, prev.stake_weight),
                entity_id,
                stake,
            );
            caps_in_force_on(
                es2,
                count2,
                sat_add_u128(sat_sub_u128(p.total_validator_stake, prev.stake_weight), stake),
                p.config.max_entity_stake_bps,
                p.spec_min_entities_for_cap(),
            )
        }),
{
    let prev = p.validators@[validator];
    let es = p.entity_stake@;
    let (pe, ps) = (prev.entity_id, prev.stake_weight);
    let (es1, count1) = spec_sub_entity_stake((es, p.entity_count), pe, ps);
    let (es2, count2) = spec_add_entity_stake((es1, count1), entity_id, stake);
    lemma_entity_within_total(p.validators@, pe);
    assert(recorded(es, pe) == map_sum(entity_stakes(p.validators@, pe)));
    assert(es.contains_key(pe));
    vstd::set::axiom_set_contains_len(es.dom(), pe);
    assert(count2 == active);
    assert forall|e: u32| #[trigger] es2.contains_key(e) implies es2[e] == (if es.contains_key(e) {
        adjusted_entity_stake(es[e], e, entity_id, Some(pe), ps, stake)
    } else {
        stake
    }) && (!es.contains_key(e) ==> e == entity_id && p.entity_stake_of(entity_id) == 0) by {}
}


/// Law: admitting a new validator and then dropping it again restores the
/// validator set, its counters, totals and entity stakes, and the permits,
/// when none of the counters or totals saturates on the way.
pub proof fn lemma_admit_then_drop_restores(
    s0: &Pallet,
    s1: &Pallet,
    s2: &Pallet,
    v: AccountId,
    info: ValidatorInfo,
)
    requires
        s0.books_balanced(),
        !s0.validators@.contains_key(v),
        info.stake_weight > 0,
        s0.validator_count < u32::MAX,
        s0.entity_count < u32::MAX,
        s0.total_validator_stake + info.stake_weight <= u128::MAX,
        validator_admitted(s0, s1, v, info),
        validator_dropped(s1, s2, v),
    ensures
        s1.validators@.contains_key(v),
        s2.validators@ == s0.validators@,
        s2.validator_count == s0.validator_count,
        s2.total_validator_stake == s0.total_validator_stake,
        s2.entity_stake@ == s0.entity_stake@,
        s2.entity_count == s0.entity_count,
        s2.permitted_validators@ == s0.permitted_validators@,
        s2.permit_count == s0.permit_count,
{
    let es = s0.entity_stake@;
    let e = info.entity_id;
    assert(s2.validators@ =~= s0.validators@);
    lemma_entity_within_total(s0.validators@, e);
    assert(recorded(es, e) == map_sum(entity_stakes(s0.validators@, e)));
    assert(!s0.permitted_validators@.contains_key(v));
    assert(s2.permitted_validators@ =~= s0.permitted_validators@);
    if es.contains_key(e) {
        assert(s2.entity_stake@ =~= es);
    } else {
        assert(s2.entity_stake@ =~= es);
    }
}

} // verus!
