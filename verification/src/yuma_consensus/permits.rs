//! Rotation of the per-epoch submission permits to the top validators by
//! stake.

use vstd::prelude::*;

use crate::encoding::{bytes_lt, encode_account, le_bytes_u64, lex_lt};
use crate::keymap::KeyMap;
use crate::primitives::{AccountId, Origin};
use crate::yuma_consensus::{Error, Event, Pallet, ValidatorInfo};

verus! {

/// Validator `u` ranks ahead of validator `v`: more stake weight, or equal
/// stake weight and a smaller SCALE encoding.
pub open spec fn ranks_before(vals: Map<AccountId, ValidatorInfo>, u: AccountId, v: AccountId) -> bool {
    ||| vals[u].stake_weight > vals[v].stake_weight
    ||| vals[u].stake_weight == vals[v].stake_weight && lex_lt(le_bytes_u64(u), le_bytes_u64(v))
}

/// How many of `keys` rank ahead of `v`.
pub open spec fn rank_in(keys: Seq<AccountId>, vals: Map<AccountId, ValidatorInfo>, v: AccountId) -> nat
    decreases keys.len(),
{
    if keys.len() == 0 {
        0
    } else {
        rank_in(keys.drop_last(), vals, v) + if ranks_before(vals, keys.last(), v) { 1nat } else { 0nat }
    }
}

impl Pallet {
    /// How many permits a rotation hands out at most.
    pub open spec fn permit_limit(&self) -> nat {
        if self.config.max_permitted_validators <= self.config.max_validators {
            self.config.max_permitted_validators as nat
        } else {
            self.config.max_validators as nat
        }
    }

    /// How many governed validators rank ahead of `v`.
    pub open spec fn rank(&self, v: AccountId) -> nat {
        rank_in(self.validators.keys(), self.validators@, v)
    }

    /// `v` is one of the `permit_limit` top-ranked validators.
    pub open spec fn wins_permit(&self, v: AccountId) -> bool {
        self.validators@.contains_key(v) && self.rank(v) < self.permit_limit()
    }

    /// Some validator has already submitted weights for `epoch`.
    pub open spec fn epoch_started(&self, epoch: u64) -> bool {
        exists|k: (u64, AccountId)| #[trigger] self.weights@.contains_key(k) && k.0 == epoch
    }

    fn has_submissions(&self, epoch: u64) -> (b: bool)
        requires
            self.wf(),
        ensures
            b == self.epoch_started(epoch),
    {
        let n = self.weights.len();
        let mut i: usize = 0;
        while i < n
            invariant
                self.wf(),
                n == self.weights.keys().len(),
                i <= n,
                forall|j: int| 0 <= j < i ==> (#[trigger] self.weights.keys()[j]).0 != epoch,
            decreases n - i,
        {
            let k = self.weights.key_at(i);
            if k.0 == epoch {
                return true;
            }
            i += 1;
        }
        proof {
            self.weights.lemma_keys();
            if self.epoch_started(epoch) {
                let k = choose|k: (u64, AccountId)| #[trigger] self.weights@.contains_key(k) && k.0 == epoch;
                let j = choose|j: int| 0 <= j < self.weights.keys().len() && self.weights.keys()[j] == k;
                assert((self.weights.keys()[j]).0 != epoch);
            }
        }
        false
    }

    /// The epoch permits of other epochs.
    fn other_epoch_permits(&self, epoch: u64) -> (m: KeyMap<(u64, AccountId), ValidatorInfo>)
        requires
            self.wf(),
        ensures
            m.wf(),
            m@ == Map::new(
                |k: (u64, AccountId)| self.epoch_permitted_validators@.contains_key(k) && k.0 != epoch,
                |k: (u64, AccountId)| self.epoch_permitted_validators@[k],
            ),
    {
        let ghost keys = self.epoch_permitted_validators.keys();
        let mut m: KeyMap<(u64, AccountId), ValidatorInfo> = KeyMap::new();
        let n = self.epoch_permitted_validators.len();
        let mut i: usize = 0;
        while i < n
            invariant
                self.wf(),
                keys == self.epoch_permitted_validators.keys(),
                n == keys.len(),
                i <= n,
                m.wf(),
                m@ == Map::new(
                    |k: (u64, AccountId)| keys.take(i as int).contains(k) && k.0 != epoch,
                    |k: (u64, AccountId)| self.epoch_permitted_validators@[k],
                ),
            decreases n - i,
        {
            let k = self.epoch_permitted_validators.key_at(i);
            let info = *self.epoch_permitted_validators.value_at(i);
            if k.0 != epoch {
                m.insert(k, info);
            }
            proof {
                assert(keys.take(i + 1) =~= keys.take(i as int).push(k));
                assert forall|x: (u64, AccountId)| keys.take(i + 1).contains(x) <==> (keys.take(i as int).contains(x)
                    || x == k) by {
                    let pre = keys.take(i as int);
                    let post = keys.take(i + 1);
                    if post.contains(x) {
                        let j = choose|j: int| 0 <= j < post.len() && post[j] == x;
                        if j < i {
                            assert(pre[j] == x);
                        }
                    }
                    if pre.contains(x) {
                        let j = choose|j: int| 0 <= j < pre.len() && pre[j] == x;
                        assert(post[j] == x);
                    }
                    if x == k {
                        assert(post[i as int] == x);
                    }
                }
                assert(m@ =~= Map::new(
                    |x: (u64, AccountId)| keys.take(i + 1).contains(x) && x.0 != epoch,
                    |x: (u64, AccountId)| self.epoch_permitted_validators@[x],
                ));
            }
            i += 1;
        }
        proof {
            self.epoch_permitted_validators.lemma_keys();
            assert(keys.take(n as int) =~= keys);
            assert(m@ =~= Map::new(
                |k: (u64, AccountId)| self.epoch_permitted_validators@.contains_key(k) && k.0 != epoch,
                |k: (u64, AccountId)| self.epoch_permitted_validators@[k],
            ));
        }
        m
    }

    fn validator_encodings(&self) -> (encs: Vec<Vec<u8>>)
        requires
            self.wf(),
        ensures
            encs@.len() == self.validators.keys().len(),
            forall|j: int| 0 <= j < encs@.len() ==> (#[trigger] encs@[j])@ == le_bytes_u64(self.validators.keys()[j]),
    {
        let n = self.validators.len();
        let mut encs: Vec<Vec<u8>> = Vec::new();
        let mut i: usize = 0;
        while i < n
            invariant
                self.wf(),
                n == self.validators.keys().len(),
                i <= n,
                encs@.len() == i,
                forall|j: int| 0 <= j < i ==> (#[trigger] encs@[j])@ == le_bytes_u64(self.validators.keys()[j]),
            decreases n - i,
        {
            let v = self.validators.key_at(i);
            encs.push(encode_account(&v));
            i += 1;
        }
        encs
    }

    fn rank_of(&self, encs: &Vec<Vec<u8>>, i: usize) -> (r: usize)
        requires
            self.wf(),
            i < self.validators.keys().len(),
            encs@.len() == self.validators.keys().len(),
            forall|j: int| 0 <= j < encs@.len() ==> (#[trigger] encs@[j])@ == le_bytes_u64(self.validators.keys()[j]),
        ensures
            r == self.rank(self.validators.keys()[i as int]),
    {
        let ghost keys = self.validators.keys();
        let ghost vals = self.validators@;
        let v = self.validators.key_at(i);
        let info = *self.validators.value_at(i);
        let n = self.validators.len();
        let mut rank: usize = 0;
        let mut j: usize = 0;
        while j < n
            invariant
                self.wf(),
                keys == self.validators.keys(),
                vals == self.validators@,
                n == keys.len(),
                i < n,
                v == keys[i as int],
                info == vals[v],
                encs@.len() == n,
                forall|j: int| 0 <= j < encs@.len() ==> (#[trigger] encs@[j])@ == le_bytes_u64(keys[j]),
                j <= n,
                rank <= j,
                rank == rank_in(keys.take(j as int), vals, v),
            decreases n - j,
        {
            let u = self.validators.key_at(j);
            let u_info = *self.validators.value_at(j);
            let before = u_info.stake_weight > info.stake_weight || (u_info.stake_weight == info.stake_weight
                && bytes_lt(&encs[j], &encs[i]));
            proof {
                assert(keys.take(j + 1).drop_last() =~= keys.take(j as int));
                assert(keys.take(j + 1).last() == u);
                assert(before == ranks_before(vals, u, v));
            }
            if before {
                rank += 1;
            }
            j += 1;
        }
        proof {
            assert(keys.take(n as int) =~= keys);
        }
        rank
    }

    /// Governance hands the submission permits for `epoch` to the
    /// `min(max_permitted_validators, max_validators)` validators with the
    /// most stake weight (ties broken by the smaller SCALE encoding),
    /// snapshotting their admission records for the epoch. The current
    /// permits are replaced; an epoch that is computed or already has
    /// submissions cannot be rotated.
    pub fn rotate_permits(&mut self, origin: Origin, epoch: u64) -> (r: Result<Event, Error>)
        requires
            old(self).wf(),
        ensures
            old(self).within_capacity() ==> final(self).within_capacity(),
            old(self).books_balanced() ==> final(self).books_balanced(),
            final(self).wf(),
            r is Err ==> *final(self) == *old(self),
            !(origin is Root) ==> r == Err::<Event, Error>(Error::BadOrigin),
            origin is Root && old(self).computed@.contains_key(epoch) ==> r == Err::<Event, Error>(
                Error::EpochAlreadyComputed,
            ),
            origin is Root && !old(self).computed@.contains_key(epoch) && old(self).epoch_started(epoch) ==> r
                == Err::<Event, Error>(Error::EpochAlreadyStarted),
            origin is Root && !old(self).computed@.contains_key(epoch) && !old(self).epoch_started(epoch) ==> ({
                let winners = Set::new(|v: AccountId| old(self).wins_permit(v));
                let count: u32 = if winners.len() <= u32::MAX { winners.len() as u32 } else { u32::MAX };
                &&& winners.finite()
                &&& r == Ok::<Event, Error>(Event::PermitsRotated { permitted_count: count })
                &&& final(self).permitted_validators@ == Map::new(
                    |v: AccountId| old(self).wins_permit(v),
                    |v: AccountId| (),
                )
                &&& final(self).epoch_permitted_validators@ == Map::new(
                    |k: (u64, AccountId)|
                        (old(self).epoch_permitted_validators@.contains_key(k) && k.0 != epoch) || (k.0 == epoch
                            && old(self).wins_permit(k.1)),
                    |k: (u64, AccountId)|
                        if k.0 == epoch {
                            old(self).validators@[k.1]
                        } else {
                            old(self).epoch_permitted_validators@[k]
                        },
                )
                &&& final(self).permit_count == count
                &&& final(self).epoch_permit_count@ == old(self).epoch_permit_count@.insert(epoch, count)
                &&& final(self).weights == old(self).weights
                &&& final(self).epoch_incentives == old(self).epoch_incentives
                &&& final(self).computed == old(self).computed
                &&& final(self).validators == old(self).validators
                &&& final(self).validator_count == old(self).validator_count
                &&& final(self).total_validator_stake == old(self).total_validator_stake
                &&& final(self).entity_stake == old(self).entity_stake
                &&& final(self).entity_count == old(self).entity_count
                &&& final(self).epoch_score_totals == old(self).epoch_score_totals
                &&& final(self).config == old(self).config
                &&& final(self).storage_version == old(self).storage_version
            }),
    {
        if !origin.is_root() {
            return Err(Error::BadOrigin);
        }
        if self.computed.contains_key(&epoch) {
            return Err(Error::EpochAlreadyComputed);
        }
        if self.has_submissions(epoch) {
            return Err(Error::EpochAlreadyStarted);
        }
        let ghost keys = self.validators.keys();
        let ghost vals = self.validators@;
        let ghost others = self.epoch_permitted_validators@;
        let encs = self.validator_encodings();
        let mut epoch_permits = self.other_epoch_permits(epoch);
        let limit: u32 = if self.config.max_permitted_validators <= self.config.max_validators {
            self.config.max_permitted_validators
        } else {
            self.config.max_validators
        };
        let mut permitted: KeyMap<AccountId, ()> = KeyMap::new();
        let mut count: u32 = 0;
        let n = self.validators.len();
        let mut i: usize = 0;
        while i < n
            invariant
                self.wf(),
                keys == self.validators.keys(),
                vals == self.validators@,
                others == self.epoch_permitted_validators@,
                n == keys.len(),
                i <= n,
                limit == self.permit_limit(),
                encs@.len() == n,
                forall|j: int| 0 <= j < encs@.len() ==> (#[trigger] encs@[j])@ == le_bytes_u64(keys[j]),
                permitted.wf(),
                permitted@ == Map::new(
                    |v: AccountId| keys.take(i as int).contains(v) && self.rank(v) < self.permit_limit(),
                    |v: AccountId| (),
                ),
                count == if permitted@.dom().len() <= u32::MAX {
                    permitted@.dom().len() as u32
                } else {
                    u32::MAX
                },
                epoch_permits.wf(),
                epoch_permits@ == Map::new(
                    |k: (u64, AccountId)|
                        (others.contains_key(k) && k.0 != epoch) || (k.0 == epoch && keys.take(i as int).contains(k.1)
                            && self.rank(k.1) < self.permit_limit()),
                    |k: (u64, AccountId)| if k.0 == epoch { vals[k.1] } else { others[k] },
                ),
            decreases n - i,
        {
            let v = self.validators.key_at(i);
            let info = *self.validators.value_at(i);
            let rank = self.rank_of(&encs, i);
            proof {
                self.validators.lemma_keys();
                permitted.lemma_keys();
                assert(keys.take(i + 1) =~= keys.take(i as int).push(v));
                assert forall|x: AccountId| keys.take(i + 1).contains(x) <==> (keys.take(i as int).contains(x)
                    || x == v) by {
                    let pre = keys.take(i as int);
                    let post = keys.take(i + 1);
                    if post.contains(x) {
                        let j = choose|j: int| 0 <= j < post.len() && post[j] == x;
                        if j < i {
                            assert(pre[j] == x);
                        }
                    }
                    if pre.contains(x) {
                        let j = choose|j: int| 0 <= j < pre.len() && pre[j] == x;
                        assert(post[j] == x);
                    }
                    if x == v {
                        assert(post[i as int] == x);
                    }
                }
                assert(!keys.take(i as int).contains(v)) by {
                    if keys.take(i as int).contains(v) {
                        let j = choose|j: int| 0 <= j < i && keys.take(i as int)[j] == v;
                        assert(keys[j] == keys[i as int]);
                    }
                }
                assert(!permitted@.contains_key(v));
            }
            if rank < limit as usize {
                permitted.insert(v, ());
                epoch_permits.insert((epoch, v), info);
                count = count.saturating_add(1);
                proof {
                    permitted.lemma_keys();
                }
            }
            proof {
                permitted.lemma_keys();
                assert(permitted@ =~= Map::new(
                    |x: AccountId| keys.take(i + 1).contains(x) && self.rank(x) < self.permit_limit(),
                    |x: AccountId| (),
                ));
                assert(epoch_permits@ =~= Map::new(
                    |k: (u64, AccountId)|
                        (others.contains_key(k) && k.0 != epoch) || (k.0 == epoch && keys.take(i + 1).contains(k.1)
                            && self.rank(k.1) < self.permit_limit()),
                    |k: (u64, AccountId)| if k.0 == epoch { vals[k.1] } else { others[k] },
                ));
            }
            i += 1;
        }
        proof {
            self.validators.lemma_keys();
            permitted.lemma_keys();
            assert(keys.take(n as int) =~= keys);
            assert(permitted@ =~= Map::new(|v: AccountId| self.wins_permit(v), |v: AccountId| ()));
            assert(permitted@.dom() =~= Set::new(|v: AccountId| self.wins_permit(v)));
            assert(epoch_permits@ =~= Map::new(
                |k: (u64, AccountId)|
                    (others.contains_key(k) && k.0 != epoch) || (k.0 == epoch && self.wins_permit(k.1)),
                |k: (u64, AccountId)| if k.0 == epoch { vals[k.1] } else { others[k] },
            ));
        }
        self.permitted_validators = permitted;
        self.epoch_permitted_validators = epoch_permits;
        self.permit_count = count;
        self.epoch_permit_count.insert(epoch, count);
        proof {
            if old(self).books_balanced() {
                super::books::lemma_permits_replaced(old(self), self);
            }
        }
        Ok(Event::PermitsRotated { permitted_count: count })
    }
}

} // verus!
