//! Weight submission and epoch computation.

use vstd::prelude::*;

use crate::encoding::{account_storage_key, account_storage_key_of, bytes_lt, lex_lt};
use crate::keymap::KeyMap;
use crate::primitives::{sat_add_u128, sat_add_u32, saturating_mul_u128, AccountId, Origin};
use crate::yuma_consensus::scoring::{
    clipped_weight, entries_of, flatten, grand_total, incentive_share, median_score,
    operator_median, operator_medians, operator_total, scored, ScoreEntry, WeightSubmission,
};
use crate::yuma_consensus::{Error, Event, Pallet, INCENTIVE_BPS};

verus! {

/// The accounts that submitted for `epoch`, in the order of `keys`.
pub open spec fn epoch_submitters(keys: Seq<(u64, AccountId)>, epoch: u64) -> Seq<AccountId>
    decreases keys.len(),
{
    if keys.len() == 0 {
        Seq::empty()
    } else {
        let prev = epoch_submitters(keys.drop_last(), epoch);
        if keys.last().0 == epoch {
            prev.push(keys.last().1)
        } else {
            prev
        }
    }
}

/// How many of `accounts` are stored before `v`: their storage keys sort
/// before `v`'s.
pub open spec fn storage_rank(accounts: Seq<AccountId>, v: AccountId) -> nat
    decreases accounts.len(),
{
    if accounts.len() == 0 {
        0
    } else {
        storage_rank(accounts.drop_last(), v) + if lex_lt(
            account_storage_key(accounts.last()),
            account_storage_key(v),
        ) {
            1nat
        } else {
            0nat
        }
    }
}

/// The submissions for `epoch` of the accounts of `prefix` that are among
/// the first `max` of `accounts` in storage order.
pub open spec fn first_stored(
    prefix: Seq<AccountId>,
    accounts: Seq<AccountId>,
    m: Map<(u64, AccountId), WeightSubmission>,
    epoch: u64,
    max: nat,
) -> Seq<WeightSubmission>
    decreases prefix.len(),
{
    if prefix.len() == 0 {
        Seq::empty()
    } else {
        let prev = first_stored(prefix.drop_last(), accounts, m, epoch, max);
        let a = prefix.last();
        if storage_rank(accounts, a) < max {
            prev.push(m[(epoch, a)])
        } else {
            prev
        }
    }
}

/// The operators whose clipped scores sum to a positive total, with that
/// total.
pub open spec fn positive_totals(entries: Seq<ScoreEntry>) -> Map<AccountId, u128> {
    Map::new(
        |op: AccountId| operator_total(entries, op, entries.len()) > 0,
        |op: AccountId| operator_total(entries, op, entries.len()),
    )
}

/// Per-operator totals and the grand total of the clipped, stake-weighted
/// scores.
pub fn score_totals(entries: &Vec<ScoreEntry>) -> (r: (KeyMap<AccountId, u128>, u128))
    ensures
        r.0.wf(),
        r.0@ == positive_totals(entries@),
        r.1 == grand_total(entries@, entries@.len()),
{
    let medians = operator_medians(entries);
    let mut totals: KeyMap<AccountId, u128> = KeyMap::new();
    let mut grand: u128 = 0;
    let mut i: usize = 0;
    while i < entries.len()
        invariant
            i <= entries@.len(),
            medians.wf(),
            forall|op: AccountId| #[trigger] medians@.contains_key(op) <==> scored(entries@, op),
            forall|op: AccountId| #[trigger]
                medians@.contains_key(op) ==> medians@[op] == operator_median(entries@, op),
            totals.wf(),
            totals@ == Map::new(
                |op: AccountId| operator_total(entries@, op, i as nat) > 0,
                |op: AccountId| operator_total(entries@, op, i as nat),
            ),
            grand == grand_total(entries@, i as nat),
        decreases entries@.len() - i,
    {
        let e = entries[i];
        assert(scored(entries@, e.operator)) by {
            assert(entries@[i as int].operator == e.operator);
        }
        let median = median_score(&medians, &e.operator);
        let clipped = if e.score <= median { e.score } else { median };
        let weighted = saturating_mul_u128(e.stake_weight, clipped as u128);
        assert(weighted == clipped_weight(entries@, e));
        if weighted != 0 {
            let prev = match totals.get(&e.operator) {
                Some(v) => *v,
                None => 0,
            };
            totals.insert(e.operator, prev.saturating_add(weighted));
            grand = grand.saturating_add(weighted);
        }
        proof {
            assert(totals@ =~= Map::new(
                |op: AccountId| operator_total(entries@, op, (i + 1) as nat) > 0,
                |op: AccountId| operator_total(entries@, op, (i + 1) as nat),
            ));
        }
        i += 1;
    }
    (totals, grand)
}

impl Pallet {
    /// The scores that computing `epoch` aggregates: those of the epoch's
    /// submissions whose validators are among the first `max_validators`
    /// in storage order (the order of their accounts' storage keys). The
    /// medians and totals computed from them do not depend on the order in
    /// which the submissions are listed.
    pub open spec fn compute_entries(&self, epoch: u64) -> Seq<ScoreEntry> {
        let accounts = epoch_submitters(self.weights.keys(), epoch);
        flatten(first_stored(accounts, accounts, self.weights@, epoch, self.config.max_validators as nat))
    }

    fn collect_entries(&self, epoch: u64) -> (entries: Vec<ScoreEntry>)
        requires
            self.wf(),
        ensures
            entries@ == self.compute_entries(epoch),
    {
        let ghost keys = self.weights.keys();
        let ghost m = self.weights@;
        let ghost max = self.config.max_validators as nat;
        let n = self.weights.len();
        let mut accounts: Vec<AccountId> = Vec::new();
        let mut i: usize = 0;
        while i < n
            invariant
                self.wf(),
                keys == self.weights.keys(),
                m == self.weights@,
                n == keys.len(),
                i <= n,
                accounts@ == epoch_submitters(keys.take(i as int), epoch),
                accounts@.len() <= i,
                forall|t: int| 0 <= t < accounts@.len() ==> m.contains_key((epoch, #[trigger] accounts@[t])),
            decreases n - i,
        {
            let key = self.weights.key_at(i);
            proof {
                assert(keys.take(i + 1).drop_last() =~= keys.take(i as int));
                assert(keys.take(i + 1).last() == key);
                self.weights.lemma_keys();
            }
            if key.0 == epoch {
                accounts.push(key.1);
            }
            i += 1;
        }
        proof {
            assert(keys.take(n as int) =~= keys);
        }
        let na = accounts.len();
        let mut skeys: Vec<Vec<u8>> = Vec::new();
        let mut i: usize = 0;
        while i < na
            invariant
                na == accounts@.len(),
                i <= na,
                skeys@.len() == i,
                forall|t: int| 0 <= t < i ==> (#[trigger] skeys@[t])@ == account_storage_key(accounts@[t]),
            decreases na - i,
        {
            skeys.push(account_storage_key_of(&accounts[i]));
            i += 1;
        }
        let mut entries: Vec<ScoreEntry> = Vec::new();
        let mut i: usize = 0;
        while i < na
            invariant
                self.wf(),
                m == self.weights@,
                max == self.config.max_validators as nat,
                na == accounts@.len(),
                i <= na,
                skeys@.len() == na,
                forall|t: int| 0 <= t < na ==> (#[trigger] skeys@[t])@ == account_storage_key(accounts@[t]),
                forall|t: int| 0 <= t < accounts@.len() ==> m.contains_key((epoch, #[trigger] accounts@[t])),
                entries@ == flatten(first_stored(accounts@.take(i as int), accounts@, m, epoch, max)),
            decreases na - i,
        {
            let a = accounts[i];
            let mut rank: usize = 0;
            let mut j: usize = 0;
            while j < na
                invariant
                    na == accounts@.len(),
                    i < na,
                    a == accounts@[i as int],
                    j <= na,
                    skeys@.len() == na,
                    forall|t: int| 0 <= t < na ==> (#[trigger] skeys@[t])@ == account_storage_key(accounts@[t]),
                    rank == storage_rank(accounts@.take(j as int), a),
                    rank <= j,
                decreases na - j,
            {
                proof {
                    assert(accounts@.take(j + 1).drop_last() =~= accounts@.take(j as int));
                }
                if bytes_lt(&skeys[j], &skeys[i]) {
                    rank += 1;
                }
                j += 1;
            }
            proof {
                assert(accounts@.take(na as int) =~= accounts@);
                assert(accounts@.take(i + 1).drop_last() =~= accounts@.take(i as int));
                assert(accounts@.take(i + 1).last() == a);
                assert(m.contains_key((epoch, accounts@[i as int])));
            }
            if rank < self.config.max_validators as usize {
                let sub = match self.weights.get(&(epoch, a)) {
                    Some(sub) => sub,
                    None => {
                        proof {
                            assert(false);
                        }
                        return entries;
                    },
                };
                let ghost prev_subs = first_stored(accounts@.take(i as int), accounts@, m, epoch, max);
                let ghost base = entries@;
                proof {
                    assert(prev_subs.push(*sub).drop_last() =~= prev_subs);
                }
                let mut j: usize = 0;
                while j < sub.vector.len()
                    invariant
                        j <= sub.vector@.len(),
                        entries@ == base + entries_of(*sub).take(j as int),
                    decreases sub.vector@.len() - j,
                {
                    let (op, score) = sub.vector[j];
                    entries.push(ScoreEntry { operator: op, stake_weight: sub.stake_weight, score });
                    proof {
                        assert(entries_of(*sub).take(j + 1) =~= entries_of(*sub).take(j as int).push(
                            entries_of(*sub)[j as int],
                        ));
                    }
                    j += 1;
                }
                proof {
                    assert(entries_of(*sub).take(sub.vector@.len() as int) =~= entries_of(*sub));
                }
            }
            i += 1;
        }
        proof {
            assert(accounts@.take(na as int) =~= accounts@);
        }
        entries
    }

    /// A validator holding a permit for `epoch` submits its weight vector,
    /// tagged with the stake weight snapshotted in its permit. A later
    /// submission for the same epoch replaces an earlier one.
    pub fn submit_weights(&mut self, origin: Origin, epoch: u64, vector: Vec<(AccountId, u16)>) -> (r: Result<
        Event,
        Error,
    >)
        requires
            old(self).wf(),
        ensures
            old(self).within_capacity() ==> final(self).within_capacity(),
            old(self).books_balanced() ==> final(self).books_balanced(),
            final(self).wf(),
            r is Err ==> *final(self) == *old(self),
            match origin {
                Origin::Signed(who) => if !old(self).epoch_permitted_validators@.contains_key((epoch, who)) {
                    r == Err::<Event, Error>(Error::UnauthorizedValidator)
                } else if old(self).computed@.contains_key(epoch) {
                    r == Err::<Event, Error>(Error::EpochAlreadyComputed)
                } else if vector@.len() > old(self).config.max_weight_vector_len {
                    r == Err::<Event, Error>(Error::WeightVectorTooLarge)
                } else {
                    &&& r == Ok::<Event, Error>(
                        Event::WeightsSubmitted { validator: who, epoch, vector_len: vector@.len() as u32 },
                    )
                    &&& final(self).weights@ == old(self).weights@.insert(
                        (epoch, who),
                        WeightSubmission {
                            stake_weight: old(self).epoch_permitted_validators@[(epoch, who)].stake_weight,
                            vector,
                        },
                    )
                    &&& final(self).epoch_incentives == old(self).epoch_incentives
                    &&& final(self).computed == old(self).computed
                    &&& final(self).validators == old(self).validators
                    &&& final(self).permitted_validators == old(self).permitted_validators
                    &&& final(self).permit_count == old(self).permit_count
                    &&& final(self).epoch_permitted_validators == old(self).epoch_permitted_validators
                    &&& final(self).epoch_permit_count == old(self).epoch_permit_count
                    &&& final(self).validator_count == old(self).validator_count
                    &&& final(self).total_validator_stake == old(self).total_validator_stake
                    &&& final(self).entity_stake == old(self).entity_stake
                    &&& final(self).entity_count == old(self).entity_count
                    &&& final(self).epoch_score_totals == old(self).epoch_score_totals
                    &&& final(self).config == old(self).config
                    &&& final(self).storage_version == old(self).storage_version
                &&& final(self).storage_version == old(self).storage_version
                },
                _ => r == Err::<Event, Error>(Error::BadOrigin),
            },
    {
        let who = match origin.signer() {
            Some(who) => who,
            None => return Err(Error::BadOrigin),
        };
        let info = match self.epoch_permitted_validators.get(&(epoch, who)) {
            Some(info) => *info,
            None => return Err(Error::UnauthorizedValidator),
        };
        if self.computed.contains_key(&epoch) {
            return Err(Error::EpochAlreadyComputed);
        }
        if vector.len() > self.config.max_weight_vector_len as usize {
            return Err(Error::WeightVectorTooLarge);
        }
        let len = vector.len() as u32;
        self.weights.insert((epoch, who), WeightSubmission { stake_weight: info.stake_weight, vector });
        Ok(Event::WeightsSubmitted { validator: who, epoch, vector_len: len })
    }

    /// Computes an epoch's incentives once: every score is clipped to its
    /// operator's median score, weighted by the submitter's stake snapshot
    /// and summed per operator; each operator with a positive total gets a
    /// share `total * 10_000 / grand total` (capped at `u32::MAX`).
    pub fn compute_epoch_incentives(&mut self, origin: Origin, epoch: u64) -> (r: Result<Event, Error>)
        requires
            old(self).wf(),
        ensures
            old(self).within_capacity() ==> final(self).within_capacity(),
            old(self).books_balanced() ==> final(self).books_balanced(),
            final(self).wf(),
            r is Err ==> *final(self) == *old(self),
            !(origin is Root) ==> r == Err::<Event, Error>(Error::BadOrigin),
            origin is Root && old(self).computed@.contains_key(epoch) ==> r == Err::<Event, Error>(
                Error::EpochAlreadyComputed,
            ),
            origin is Root && !old(self).computed@.contains_key(epoch) ==> ({
                let entries = old(self).compute_entries(epoch);
                let grand = grand_total(entries, entries.len());
                let totals = positive_totals(entries);
                &&& final(self).computed@ == old(self).computed@.insert(epoch, ())
                &&& final(self).epoch_score_totals@ == old(self).epoch_score_totals@.union_prefer_right(
                    Map::new(
                        |k: (u64, AccountId)| k.0 == epoch && totals.contains_key(k.1),
                        |k: (u64, AccountId)| totals[k.1],
                    ),
                )
                &&& final(self).epoch_incentives@ == if grand == 0 {
                    old(self).epoch_incentives@
                } else {
                    old(self).epoch_incentives@.union_prefer_right(
                        Map::new(
                            |k: (u64, AccountId)| k.0 == epoch && totals.contains_key(k.1),
                            |k: (u64, AccountId)| incentive_share(totals[k.1], grand),
                        ),
                    )
                }
                &&& totals.dom().finite()
                &&& r == Ok::<Event, Error>(
                    Event::EpochComputed {
                        epoch,
                        operator_count: if grand == 0 {
                            0u32
                        } else if totals.dom().len() <= u32::MAX {
                            totals.dom().len() as u32
                        } else {
                            u32::MAX
                        },
                    },
                )
                &&& final(self).weights == old(self).weights
                &&& final(self).validators == old(self).validators
                &&& final(self).permitted_validators == old(self).permitted_validators
                &&& final(self).permit_count == old(self).permit_count
                &&& final(self).epoch_permitted_validators == old(self).epoch_permitted_validators
                &&& final(self).epoch_permit_count == old(self).epoch_permit_count
                &&& final(self).validator_count == old(self).validator_count
                &&& final(self).total_validator_stake == old(self).total_validator_stake
                &&& final(self).entity_stake == old(self).entity_stake
                &&& final(self).entity_count == old(self).entity_count
                &&& final(self).config == old(self).config
                &&& final(self).storage_version == old(self).storage_version
            }),
    {
        if !origin.is_root() {
            return Err(Error::BadOrigin);
        }
        if self.computed.contains_key(&epoch) {
            return Err(Error::EpochAlreadyComputed);
        }
        let entries = self.collect_entries(epoch);
        let ghost before = *self;
        let ghost old_totals = self.epoch_score_totals@;
        let ghost old_incentives = self.epoch_incentives@;
        assert(forall|k: (u64, AccountId)| #[trigger] old_totals.contains_key(k) ==> k.0 != epoch);
        assert(forall|k: (u64, AccountId)| #[trigger] old_incentives.contains_key(k) ==> k.0 != epoch);
        self.computed.insert(epoch, ());
        let (totals, grand) = score_totals(&entries);
        let ghost pt = positive_totals(entries@);
        let n = totals.len();
        let mut operator_count: u32 = 0;
        let mut i: usize = 0;
        while i < n
            invariant
                totals.wf(),
                totals@ == pt,
                n == totals.keys().len(),
                i <= n,
                self.computed.wf(),
                self.computed@ == before.computed@.insert(epoch, ()),
                self.epoch_score_totals.wf(),
                self.epoch_incentives.wf(),
                forall|k: (u64, AccountId)| #[trigger] old_totals.contains_key(k) ==> k.0 != epoch,
                forall|k: (u64, AccountId)| #[trigger] old_incentives.contains_key(k) ==> k.0 != epoch,
                forall|k: (u64, AccountId)| #[trigger] old_totals.contains_key(k) ==> before.computed@.contains_key(k.0),
                forall|k: (u64, AccountId)| #[trigger] old_incentives.contains_key(k) ==> before.computed@.contains_key(k.0),
                self.epoch_score_totals@ == old_totals.union_prefer_right(
                    Map::new(
                        |k: (u64, AccountId)| k.0 == epoch && totals.keys().take(i as int).contains(k.1),
                        |k: (u64, AccountId)| pt[k.1],
                    ),
                ),
                self.epoch_incentives@ == if grand == 0 {
                    old_incentives
                } else {
                    old_incentives.union_prefer_right(
                        Map::new(
                            |k: (u64, AccountId)| k.0 == epoch && totals.keys().take(i as int).contains(k.1),
                            |k: (u64, AccountId)| incentive_share(pt[k.1], grand),
                        ),
                    )
                },
                operator_count == if grand == 0 {
                    0
                } else if i <= u32::MAX {
                    i as u32
                } else {
                    u32::MAX
                },
                grand == grand_total(entries@, entries@.len()),
                self.weights == before.weights,
                self.validators == before.validators,
                self.permitted_validators == before.permitted_validators,
                self.permit_count == before.permit_count,
                self.epoch_permitted_validators == before.epoch_permitted_validators,
                self.epoch_permit_count == before.epoch_permit_count,
                self.validator_count == before.validator_count,
                self.total_validator_stake == before.total_validator_stake,
                self.entity_stake == before.entity_stake,
                self.entity_count == before.entity_count,
                self.config == before.config,
                self.storage_version == before.storage_version,
            decreases n - i,
        {
            let op = totals.key_at(i);
            let weighted_score = *totals.value_at(i);
            proof {
                totals.lemma_keys();
                assert(totals.keys().take(i + 1) =~= totals.keys().take(i as int).push(op));
                assert(!totals.keys().take(i as int).contains(op)) by {
                    if totals.keys().take(i as int).contains(op) {
                        let j = choose|j: int| 0 <= j < i && totals.keys().take(i as int)[j] == op;
                        assert(totals.keys()[j] == totals.keys()[i as int]);
                    }
                }
            }
            self.epoch_score_totals.insert((epoch, op), weighted_score);
            if grand != 0 {
                let share = saturating_mul_u128(weighted_score, INCENTIVE_BPS) / grand;
                let capped: u32 = if share <= u32::MAX as u128 { share as u32 } else { u32::MAX };
                assert(capped == incentive_share(weighted_score, grand));
                self.epoch_incentives.insert((epoch, op), capped);
                operator_count = operator_count.saturating_add(1);
            }
            proof {
                assert(weighted_score == pt[op]);
                assert forall|x: AccountId| totals.keys().take(i + 1).contains(x) <==> (totals.keys().take(
                    i as int,
                ).contains(x) || x == op) by {
                    let pre = totals.keys().take(i as int);
                    let post = totals.keys().take(i + 1);
                    if post.contains(x) {
                        let j = choose|j: int| 0 <= j < post.len() && post[j] == x;
                        if j < i {
                            assert(pre[j] == x);
                        }
                    }
                    if pre.contains(x) {
                        let j = choose|j: int| 0 <= j < pre.len() && pre[j] == x;
                        assert(post[j] == x);
                    }
                    if x == op {
                        assert(post[i as int] == x);
                    }
                }
                assert(self.epoch_score_totals@ =~= old_totals.union_prefer_right(
                    Map::new(
                        |k: (u64, AccountId)| k.0 == epoch && totals.keys().take(i + 1).contains(k.1),
                        |k: (u64, AccountId)| pt[k.1],
                    ),
                ));
                if grand != 0 {
                    assert(self.epoch_incentives@ =~= old_incentives.union_prefer_right(
                        Map::new(
                            |k: (u64, AccountId)| k.0 == epoch && totals.keys().take(i + 1).contains(k.1),
                            |k: (u64, AccountId)| incentive_share(pt[k.1], grand),
                        ),
                    ));
                }
            }
            i += 1;
        }
        proof {
            totals.lemma_keys();
            assert(totals.keys().take(n as int) =~= totals.keys());
            assert(self.epoch_score_totals@ =~= old_totals.union_prefer_right(
                Map::new(
                    |k: (u64, AccountId)| k.0 == epoch && pt.contains_key(k.1),
                    |k: (u64, AccountId)| pt[k.1],
                ),
            ));
            if grand != 0 {
                assert(self.epoch_incentives@ =~= old_incentives.union_prefer_right(
                    Map::new(
                        |k: (u64, AccountId)| k.0 == epoch && pt.contains_key(k.1),
                        |k: (u64, AccountId)| incentive_share(pt[k.1], grand),
                    ),
                ));
            }
        }
        Ok(Event::EpochComputed { epoch, operator_count })
    }
}

} // verus!
