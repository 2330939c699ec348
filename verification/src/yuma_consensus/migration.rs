//! Storage migration to the current storage version: which storage items an
//! upgrade clears, and what it weighs.

use vstd::prelude::*;

use super::Pallet;
use crate::keymap::KeyMap;
use crate::primitives::{sat_add_u64, AccountId, RuntimeDbWeight, Weight};

verus! {

/// The storage version this code expects on chain.
pub const STORAGE_VERSION: u16 = 3;

/// The pallet's storage items, by storage name.
#[derive(Clone, Copy, Debug, PartialEq, Eq, Structural)]
pub enum StorageItem {
    Weights,
    Validators,
    ValidatorCount,
    TotalValidatorStake,
    EntityStake,
    EntityCount,
    EpochScoreTotals,
    Computed,
    EpochIncentives,
    PermittedValidators,
    PermitCount,
    EpochPermittedValidators,
    EpochPermitCount,
}

/// The storage name of each item.
pub open spec fn spec_storage_name(item: StorageItem) -> Seq<char> {
    match item {
        StorageItem::Weights => "Weights"@,
        StorageItem::Validators => "Validators"@,
        StorageItem::ValidatorCount => "ValidatorCount"@,
        StorageItem::TotalValidatorStake => "TotalValidatorStake"@,
        StorageItem::EntityStake => "EntityStake"@,
        StorageItem::EntityCount => "EntityCount"@,
        StorageItem::EpochScoreTotals => "EpochScoreTotals"@,
        StorageItem::Computed => "Computed"@,
        StorageItem::EpochIncentives => "EpochIncentives"@,
        StorageItem::PermittedValidators => "PermittedValidators"@,
        StorageItem::PermitCount => "PermitCount"@,
        StorageItem::EpochPermittedValidators => "EpochPermittedValidators"@,
        StorageItem::EpochPermitCount => "EpochPermitCount"@,
    }
}

impl StorageItem {
    /// The storage item's name, the prefix under which it is stored.
    pub fn name(&self) -> (s: &'static str)
        ensures
            s@ == spec_storage_name(*self),
    {
        match self {
            StorageItem::Weights => "Weights",
            StorageItem::Validators => "Validators",
            StorageItem::ValidatorCount => "ValidatorCount",
            StorageItem::TotalValidatorStake => "TotalValidatorStake",
            StorageItem::EntityStake => "EntityStake",
            StorageItem::EntityCount => "EntityCount",
            StorageItem::EpochScoreTotals => "EpochScoreTotals",
            StorageItem::Computed => "Computed",
            StorageItem::EpochIncentives => "EpochIncentives",
            StorageItem::PermittedValidators => "PermittedValidators",
            StorageItem::PermitCount => "PermitCount",
            StorageItem::EpochPermittedValidators => "EpochPermittedValidators",
            StorageItem::EpochPermitCount => "EpochPermitCount",
        }
    }
}

/// The items an upgrade from storage version `on_chain` clears, in the
/// order they are cleared: below version 2 every item written by version 1
/// and 2 layouts, then the permit items, which changed in version 3.
pub open spec fn spec_items_to_clear(on_chain: u16) -> Seq<StorageItem> {
    let permits = seq![
        StorageItem::PermittedValidators,
        StorageItem::PermitCount,
        StorageItem::EpochPermittedValidators,
        StorageItem::EpochPermitCount,
    ];
    if on_chain >= STORAGE_VERSION {
        Seq::empty()
    } else if on_chain < 2 {
        seq![
            StorageItem::Weights,
            StorageItem::Validators,
            StorageItem::ValidatorCount,
            StorageItem::TotalValidatorStake,
            StorageItem::EntityStake,
            StorageItem::EntityCount,
            StorageItem::EpochScoreTotals,
            StorageItem::Computed,
            StorageItem::EpochIncentives,
        ] + permits
    } else {
        permits
    }
}

/// The storage items to clear when upgrading from version `on_chain`.
pub fn items_to_clear(on_chain: u16) -> (r: Vec<StorageItem>)
    ensures
        r@ == spec_items_to_clear(on_chain),
{
    let mut r: Vec<StorageItem> = Vec::new();
    if on_chain >= STORAGE_VERSION {
        return r;
    }
    if on_chain < 2 {
        r.push(StorageItem::Weights);
        r.push(StorageItem::Validators);
        r.push(StorageItem::ValidatorCount);
        r.push(StorageItem::TotalValidatorStake);
        r.push(StorageItem::EntityStake);
        r.push(StorageItem::EntityCount);
        r.push(StorageItem::EpochScoreTotals);
        r.push(StorageItem::Computed);
        r.push(StorageItem::EpochIncentives);
    }
    r.push(StorageItem::PermittedValidators);
    r.push(StorageItem::PermitCount);
    r.push(StorageItem::EpochPermittedValidators);
    r.push(StorageItem::EpochPermitCount);
    proof {
        assert(r@ =~= spec_items_to_clear(on_chain));
    }
    r
}

/// The weight of an upgrade from version `on_chain` that removed `removed`
/// storage entries: nothing when already current, otherwise one read and a
/// write per removed entry plus the version write.
pub fn upgrade_weight(on_chain: u16, db: RuntimeDbWeight, removed: u64) -> (w: Weight)
    ensures
        w == if on_chain >= STORAGE_VERSION {
            Weight { ref_time: 0, proof_size: 0 }
        } else {
            db.spec_reads_writes(1, sat_add_u64(removed, 1))
        },
{
    if on_chain >= STORAGE_VERSION {
        return Weight::zero();
    }
    db.reads_writes(1, removed.saturating_add(1))
}


/// `after` is `before` with exactly the storage items in `items` cleared.
pub open spec fn cleared(before: &Pallet, after: &Pallet, items: Seq<StorageItem>) -> bool {
    &&& after.config == before.config
    &&& after.storage_version == before.storage_version
    &&& if items.contains(StorageItem::Weights) {
        after.weights.wf() && after.weights@.is_empty()
    } else {
        after.weights == before.weights
    }
    &&& if items.contains(StorageItem::Validators) {
        after.validators.wf() && after.validators@.is_empty()
    } else {
        after.validators == before.validators
    }
    &&& after.validator_count == if items.contains(StorageItem::ValidatorCount) {
        0
    } else {
        before.validator_count
    }
    &&& after.total_validator_stake == if items.contains(StorageItem::TotalValidatorStake) {
        0
    } else {
        before.total_validator_stake
    }
    &&& if items.contains(StorageItem::EntityStake) {
        after.entity_stake.wf() && after.entity_stake@.is_empty()
    } else {
        after.entity_stake == before.entity_stake
    }
    &&& after.entity_count == if items.contains(StorageItem::EntityCount) {
        0
    } else {
        before.entity_count
    }
    &&& if items.contains(StorageItem::EpochScoreTotals) {
        after.epoch_score_totals.wf() && after.epoch_score_totals@.is_empty()
    } else {
        after.epoch_score_totals == before.epoch_score_totals
    }
    &&& if items.contains(StorageItem::Computed) {
        after.computed.wf() && after.computed@.is_empty()
    } else {
        after.computed == before.computed
    }
    &&& if items.contains(StorageItem::EpochIncentives) {
        after.epoch_incentives.wf() && after.epoch_incentives@.is_empty()
    } else {
        after.epoch_incentives == before.epoch_incentives
    }
    &&& if items.contains(StorageItem::PermittedValidators) {
        after.permitted_validators.wf() && after.permitted_validators@.is_empty()
    } else {
        after.permitted_validators == before.permitted_validators
    }
    &&& after.permit_count == if items.contains(StorageItem::PermitCount) {
        0
    } else {
        before.permit_count
    }
    &&& if items.contains(StorageItem::EpochPermittedValidators) {
        after.epoch_permitted_validators.wf() && after.epoch_permitted_validators@.is_empty()
    } else {
        after.epoch_permitted_validators == before.epoch_permitted_validators
    }
    &&& if items.contains(StorageItem::EpochPermitCount) {
        after.epoch_permit_count.wf() && after.epoch_permit_count@.is_empty()
    } else {
        after.epoch_permit_count == before.epoch_permit_count
    }
}

impl Pallet {
    /// Clears one storage item.
    pub fn clear_item(&mut self, item: StorageItem)
        ensures
            cleared(old(self), final(self), seq![item]),
    {
        match item {
            StorageItem::Weights => self.weights = KeyMap::new(),
            StorageItem::Validators => self.validators = KeyMap::new(),
            StorageItem::ValidatorCount => self.validator_count = 0,
            StorageItem::TotalValidatorStake => self.total_validator_stake = 0,
            StorageItem::EntityStake => self.entity_stake = KeyMap::new(),
            StorageItem::EntityCount => self.entity_count = 0,
            StorageItem::EpochScoreTotals => self.epoch_score_totals = KeyMap::new(),
            StorageItem::Computed => self.computed = KeyMap::new(),
            StorageItem::EpochIncentives => self.epoch_incentives = KeyMap::new(),
            StorageItem::PermittedValidators => self.permitted_validators = KeyMap::new(),
            StorageItem::PermitCount => self.permit_count = 0,
            StorageItem::EpochPermittedValidators => self.epoch_permitted_validators = KeyMap::new(),
            StorageItem::EpochPermitCount => self.epoch_permit_count = KeyMap::new(),
        }
        proof {
            assert(seq![item].contains(item) == (seq![item][0] == item));
            assert forall|other: StorageItem| other != item implies !seq![item].contains(other) by {
                if seq![item].contains(other) {
                    assert(seq![item][0] == other);
                }
            }
        }
    }

    /// Brings storage from its recorded layout version to the current one
    /// by clearing the items that changed since, and records the current
    /// version; `removed` is the number of storage entries the backend
    /// dropped doing so. Returns the upgrade's weight. Once upgraded, a
    /// further upgrade changes nothing and weighs nothing.
    pub fn on_runtime_upgrade(&mut self, db: RuntimeDbWeight, removed: u64) -> (w: Weight)
        requires
            old(self).wf(),
        ensures
            old(self).within_capacity() ==> final(self).within_capacity(),
            ({
                let on_chain = old(self).storage_version;
                &&& final(self).storage_version == if on_chain >= STORAGE_VERSION {
                    on_chain
                } else {
                    STORAGE_VERSION
                }
                &&& final(self).storage_version >= STORAGE_VERSION
                &&& cleared(
                    old(self),
                    &Pallet { storage_version: old(self).storage_version, ..*final(self) },
                    spec_items_to_clear(on_chain),
                )
                &&& w == if on_chain >= STORAGE_VERSION {
                    Weight { ref_time: 0, proof_size: 0 }
                } else {
                    db.spec_reads_writes(1, sat_add_u64(removed, 1))
                }
            }),
            final(self).wf(),
            old(self).books_balanced() ==> final(self).books_balanced(),
    {
        let on_chain = self.storage_version;
        let items = items_to_clear(on_chain);
        let ghost start = *self;
        let mut i: usize = 0;
        while i < items.len()
            invariant
                items@ == spec_items_to_clear(on_chain),
                i <= items@.len(),
                start.wf(),
                cleared(&start, self, items@.take(i as int)),
            decreases items@.len() - i,
        {
            let ghost before = *self;
            self.clear_item(items[i]);
            proof {
                let done = items@.take(i as int);
                let next = items@.take(i + 1);
                assert(next =~= done.push(items@[i as int]));
                assert forall|it: StorageItem| #[trigger] next.contains(it) <==> (done.contains(it) || it
                    == items@[i as int]) by {
                    if next.contains(it) {
                        let j = choose|j: int| 0 <= j < next.len() && next[j] == it;
                        if j < i {
                            assert(done[j] == it);
                        }
                    }
                    if done.contains(it) {
                        let j = choose|j: int| 0 <= j < done.len() && done[j] == it;
                        assert(next[j] == it);
                    }
                    if it == items@[i as int] {
                        assert(next[i as int] == it);
                    }
                }
                assert(seq![items@[i as int]].contains(items@[i as int]) == (seq![items@[i as int]][0] == items@[i as int]));
                assert forall|it: StorageItem| it != items@[i as int] implies !seq![items@[i as int]].contains(it) by {
                    if seq![items@[i as int]].contains(it) {
                        assert(seq![items@[i as int]][0] == it);
                    }
                }
            }
            i += 1;
        }
        proof {
            assert(items@.take(items@.len() as int) =~= items@);
            self.lemma_upgrade_keeps_invariants(&start, on_chain);
        }
        if on_chain < STORAGE_VERSION {
            self.storage_version = STORAGE_VERSION;
        }
        upgrade_weight(on_chain, db, removed)
    }

    proof fn lemma_upgrade_keeps_invariants(&self, start: &Pallet, on_chain: u16)
        requires
            start.wf(),
            cleared(start, self, spec_items_to_clear(on_chain)),
        ensures
            self.wf(),
            start.books_balanced() ==> self.books_balanced(),
    {
        let items = spec_items_to_clear(on_chain);
        if on_chain < STORAGE_VERSION {
            if on_chain < 2 {
                assert(items[0] == StorageItem::Weights);
                assert(items[1] == StorageItem::Validators);
                assert(items[2] == StorageItem::ValidatorCount);
                assert(items[3] == StorageItem::TotalValidatorStake);
                assert(items[4] == StorageItem::EntityStake);
                assert(items[5] == StorageItem::EntityCount);
                assert(items[6] == StorageItem::EpochScoreTotals);
                assert(items[7] == StorageItem::Computed);
                assert(items[8] == StorageItem::EpochIncentives);
                assert(items[9] == StorageItem::PermittedValidators);
                assert(items[10] == StorageItem::PermitCount);
                assert(items[11] == StorageItem::EpochPermittedValidators);
                assert(items[12] == StorageItem::EpochPermitCount);
                assert(self.validators@.dom() =~= Set::<AccountId>::empty());
                assert(self.entity_stake@.dom() =~= Set::<u32>::empty());
                assert(self.permitted_validators@.dom() =~= Set::<AccountId>::empty());
                assert(self.validators@ =~= Map::<AccountId, super::ValidatorInfo>::empty());
                assert(self.entity_stake@ =~= Map::<u32, u128>::empty());
                assert(self.permitted_validators@ =~= Map::<AccountId, ()>::empty());
                super::books::lemma_empty_books(self);
            } else {
                assert(items[0] == StorageItem::PermittedValidators);
                assert(items[1] == StorageItem::PermitCount);
                assert(items[2] == StorageItem::EpochPermittedValidators);
                assert(items[3] == StorageItem::EpochPermitCount);
                assert forall|it: StorageItem| #[trigger] items.contains(it) implies it == StorageItem::PermittedValidators
                    || it == StorageItem::PermitCount || it == StorageItem::EpochPermittedValidators || it
                    == StorageItem::EpochPermitCount by {
                    let j = choose|j: int| 0 <= j < items.len() && items[j] == it;
                }
            }
            assert(self.permitted_validators@.dom() =~= Set::<AccountId>::empty());
        } else {
            assert(items =~= Seq::<StorageItem>::empty());
        }
    }
}

} // verus!
