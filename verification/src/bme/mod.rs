//! Burn-mint equilibrium: gateways record burned amounts, and operators are
//! minted tokens only within the headroom that the burn allows,
//! `cumulative mint <= cumulative burn * elasticity / 10_000`.

use vstd::prelude::*;

use crate::keymap::KeyMap;
use crate::primitives::{sat_add_u128, AccountId, Origin, H256};
use crate::sums::{lemma_map_sum_insert, lemma_map_sum_nonneg, lemma_map_sum_update, map_sum};

pub mod weights;

verus! {

/// Token amount.
pub type TokenAmount = u128;

#[derive(Clone, Copy, Debug, PartialEq, Eq, Structural)]
pub enum Event {
    BurnSubmitted { amount: TokenAmount, batch_id: H256 },
    Minted { operator: AccountId, amount: TokenAmount },
    ElasticitySet { elasticity_bps: u32 },
}

#[derive(Clone, Copy, Debug, PartialEq, Eq, Structural)]
pub enum Error {
    /// The origin is not the one the call requires.
    BadOrigin,
    ZeroBurn,
    DuplicateBurnBatch,
    MintExceedsHeadroom,
    ArithmeticOverflow,
}

/// The pallet's storage.
pub struct Pallet {
    pub cumulative_burn: TokenAmount,
    pub cumulative_mint: TokenAmount,
    /// Elasticity in basis points (10_000 = 1.0).
    pub elasticity: u32,
    pub operator_balance: KeyMap<AccountId, TokenAmount>,
    pub processed_burn_batches: KeyMap<H256, ()>,
}

/// The checked outcome of minting `additional` more: `Ok` when the new
/// cumulative mint fits within `burn * max(elasticity, 1) / 10_000`.
pub open spec fn headroom_result(
    burn: TokenAmount,
    mint: TokenAmount,
    elasticity: u32,
    additional: TokenAmount,
) -> Result<(), Error> {
    let e: int = if elasticity >= 1 { elasticity as int } else { 1 };
    if burn * e > u128::MAX {
        Err(Error::ArithmeticOverflow)
    } else if mint + additional > u128::MAX {
        Err(Error::ArithmeticOverflow)
    } else if mint + additional > (burn * e) / 10_000 {
        Err(Error::MintExceedsHeadroom)
    } else {
        Ok(())
    }
}

/// The sum of the amounts in a mint batch.
pub open spec fn batch_total(summaries: Seq<(AccountId, TokenAmount)>) -> int
    decreases summaries.len(),
{
    if summaries.len() == 0 {
        0
    } else {
        batch_total(summaries.drop_last()) + summaries.last().1
    }
}

/// Balances after crediting each summary in turn.
pub open spec fn credit_all(
    balances: Map<AccountId, TokenAmount>,
    summaries: Seq<(AccountId, TokenAmount)>,
) -> Map<AccountId, TokenAmount>
    decreases summaries.len(),
{
    if summaries.len() == 0 {
        balances
    } else {
        let prev = credit_all(balances, summaries.drop_last());
        let (who, amount) = summaries.last();
        let b = if prev.contains_key(who) { prev[who] } else { 0 };
        prev.insert(who, sat_add_u128(b, amount))
    }
}

/// The elasticity the headroom uses: at least 1.
pub open spec fn effective_elasticity(elasticity: u32) -> int {
    if elasticity >= 1 { elasticity as int } else { 1 }
}

/// Each operator's minted balance.
pub open spec fn balances(m: Map<AccountId, TokenAmount>) -> Map<AccountId, int> {
    Map::new(|a: AccountId| m.contains_key(a), |a: AccountId| m[a] as int)
}

/// The headroom bound grows with the burn.
proof fn lemma_headroom_monotone(burn: int, more: int, e: int)
    requires
        0 <= burn <= more,
        e >= 1,
    ensures
        burn * e / 10_000 <= more * e / 10_000,
{
    assert(burn * e <= more * e) by (nonlinear_arith)
        requires
            burn <= more,
            e >= 1,
    ;
    vstd::arithmetic::div_mod::lemma_div_is_ordered(burn * e, more * e, 10_000);
}

/// Crediting `amount` to `who` adds `amount` to the balance sum, when that
/// sum has room for it.
proof fn lemma_credit_one(m: Map<AccountId, TokenAmount>, who: AccountId, amount: TokenAmount)
    requires
        m.dom().finite(),
        map_sum(balances(m)) + amount <= u128::MAX,
    ensures
        ({
            let b = if m.contains_key(who) { m[who] } else { 0 };
            let m2 = m.insert(who, sat_add_u128(b, amount));
            &&& m2.dom().finite()
            &&& map_sum(balances(m2)) == map_sum(balances(m)) + amount
        }),
{
    let b = if m.contains_key(who) { m[who] } else { 0 };
    assert(balances(m).dom() =~= m.dom());
    lemma_map_sum_nonneg(balances(m));
    assert(b + amount <= u128::MAX);
    assert(balances(m.insert(who, sat_add_u128(b, amount))) =~= balances(m).insert(who, (b + amount) as int));
    if m.contains_key(who) {
        lemma_map_sum_update(balances(m), who, (b + amount) as int);
    } else {
        lemma_map_sum_insert(balances(m), who, (b + amount) as int);
    }
}

/// Crediting a batch adds its total to the balance sum, when that sum has
/// room for it.
proof fn lemma_credit_all(m: Map<AccountId, TokenAmount>, summaries: Seq<(AccountId, TokenAmount)>)
    requires
        m.dom().finite(),
        map_sum(balances(m)) + batch_total(summaries) <= u128::MAX,
    ensures
        credit_all(m, summaries).dom().finite(),
        map_sum(balances(credit_all(m, summaries))) == map_sum(balances(m)) + batch_total(summaries),
    decreases summaries.len(),
{
    if summaries.len() > 0 {
        let rest = summaries.drop_last();
        lemma_batch_total_nonneg(rest);
        lemma_credit_all(m, rest);
        lemma_credit_one(credit_all(m, rest), summaries.last().0, summaries.last().1);
    }
}

pub proof fn lemma_batch_total_nonneg(summaries: Seq<(AccountId, TokenAmount)>)
    ensures
        batch_total(summaries) >= 0,
    decreases summaries.len(),
{
    if summaries.len() > 0 {
        lemma_batch_total_nonneg(summaries.drop_last());
    }
}

impl Pallet {
    pub open spec fn wf(&self) -> bool {
        &&& self.operator_balance.wf()
        &&& self.processed_burn_batches.wf()
    }

    /// The headroom bound holds: `cumulative_mint <= cumulative_burn *
    /// max(elasticity, 1) / 10_000`.
    pub open spec fn within_headroom(&self) -> bool {
        self.cumulative_mint <= self.cumulative_burn * effective_elasticity(self.elasticity) / 10_000
    }

    /// The cumulative mint is the sum of the operators' minted balances.
    pub open spec fn mint_accounted(&self) -> bool {
        &&& self.operator_balance@.dom().finite()
        &&& self.cumulative_mint == map_sum(balances(self.operator_balance@))
    }

    /// An operator's minted balance, zero when none.
    pub open spec fn balance_of(&self, who: AccountId) -> TokenAmount {
        if self.operator_balance@.contains_key(who) { self.operator_balance@[who] } else { 0 }
    }

    /// Empty storage with the given elasticity.
    pub fn new(elasticity: u32) -> (p: Pallet)
        ensures
            p.within_headroom(),
            p.mint_accounted(),
            p.wf(),
            p.cumulative_burn == 0,
            p.cumulative_mint == 0,
            p.elasticity == elasticity,
            p.operator_balance@ == Map::<AccountId, TokenAmount>::empty(),
            p.processed_burn_batches@ == Map::<H256, ()>::empty(),
    {
        let p = Pallet {
            cumulative_burn: 0,
            cumulative_mint: 0,
            elasticity,
            operator_balance: KeyMap::new(),
            processed_burn_batches: KeyMap::new(),
        };
        proof {
            assert(balances(p.operator_balance@).dom() =~= Set::<AccountId>::empty());
        }
        p
    }

    /// An operator's minted balance.
    pub fn operator_balance_of(&self, who: &AccountId) -> (b: TokenAmount)
        requires
            self.wf(),
        ensures
            b == self.balance_of(*who),
    {
        match self.operator_balance.get(who) {
            Some(b) => *b,
            None => 0,
        }
    }

    /// A gateway (root) records a burn batch; each batch id is accepted once.
    pub fn submit_burn(&mut self, origin: Origin, batch_id: H256, amount: TokenAmount) -> (r: Result<
        Event,
        Error,
    >)
        requires
            old(self).wf(),
        ensures
            old(self).within_headroom() ==> final(self).within_headroom(),
            old(self).mint_accounted() ==> final(self).mint_accounted(),
            final(self).wf(),
            r is Err ==> *final(self) == *old(self),
            r == if !(origin is Root) {
                Err::<Event, Error>(Error::BadOrigin)
            } else if amount == 0 {
                Err(Error::ZeroBurn)
            } else if old(self).processed_burn_batches@.contains_key(batch_id) {
                Err(Error::DuplicateBurnBatch)
            } else {
                Ok(Event::BurnSubmitted { amount, batch_id })
            },
            r is Ok ==> {
                &&& final(self).processed_burn_batches@ == old(self).processed_burn_batches@.insert(batch_id, ())
                &&& final(self).cumulative_burn == sat_add_u128(old(self).cumulative_burn, amount)
                &&& final(self).cumulative_mint == old(self).cumulative_mint
                &&& final(self).elasticity == old(self).elasticity
                &&& final(self).operator_balance == old(self).operator_balance
            },
    {
        if !origin.is_root() {
            return Err(Error::BadOrigin);
        }
        if amount == 0 {
            return Err(Error::ZeroBurn);
        }
        if self.processed_burn_batches.contains_key(&batch_id) {
            return Err(Error::DuplicateBurnBatch);
        }
        self.processed_burn_batches.insert(batch_id, ());
        self.cumulative_burn = self.cumulative_burn.saturating_add(amount);
        proof {
            lemma_headroom_monotone(
                old(self).cumulative_burn as int,
                self.cumulative_burn as int,
                effective_elasticity(self.elasticity),
            );
        }
        Ok(Event::BurnSubmitted { amount, batch_id })
    }

    /// Checks that minting `additional` more stays within the headroom.
    pub fn checked_mint_headroom(&self, additional: TokenAmount) -> (r: Result<(), Error>)
        ensures
            r == headroom_result(self.cumulative_burn, self.cumulative_mint, self.elasticity, additional),
    {
        let elasticity: u128 = if self.elasticity >= 1 { self.elasticity as u128 } else { 1 };
        let cap = match self.cumulative_burn.checked_mul(elasticity) {
            Some(v) => v / 10_000,
            None => return Err(Error::ArithmeticOverflow),
        };
        let new_total = match self.cumulative_mint.checked_add(additional) {
            Some(v) => v,
            None => return Err(Error::ArithmeticOverflow),
        };
        if new_total > cap {
            return Err(Error::MintExceedsHeadroom);
        }
        Ok(())
    }

    /// The mint origin (root) mints to one operator within the headroom.
    pub fn mint_to_operator(&mut self, origin: Origin, operator: AccountId, amount: TokenAmount) -> (r: Result<
        Event,
        Error,
    >)
        requires
            old(self).wf(),
        ensures
            r is Ok && old(self).mint_accounted() ==> final(self).balance_of(operator) == old(self).balance_of(
                operator,
            ) + amount,
            old(self).within_headroom() ==> final(self).within_headroom(),
            old(self).mint_accounted() ==> final(self).mint_accounted(),
            final(self).wf(),
            r is Err ==> *final(self) == *old(self),
            r == if !(origin is Root) {
                Err::<Event, Error>(Error::BadOrigin)
            } else {
                match headroom_result(old(self).cumulative_burn, old(self).cumulative_mint, old(self).elasticity, amount) {
                    Err(e) => Err(e),
                    Ok(()) => Ok(Event::Minted { operator, amount }),
                }
            },
            r is Ok ==> {
                &&& final(self).operator_balance@ == old(self).operator_balance@.insert(
                    operator,
                    sat_add_u128(old(self).balance_of(operator), amount),
                )
                &&& final(self).cumulative_mint == old(self).cumulative_mint + amount
                &&& final(self).cumulative_mint <= final(self).cumulative_burn * (if final(self).elasticity >= 1 {
                    final(self).elasticity as int
                } else {
                    1
                }) / 10_000
                &&& final(self).cumulative_burn == old(self).cumulative_burn
                &&& final(self).elasticity == old(self).elasticity
                &&& final(self).processed_burn_batches == old(self).processed_burn_batches
            },
    {
        if !origin.is_root() {
            return Err(Error::BadOrigin);
        }
        self.checked_mint_headroom(amount)?;
        let b = self.operator_balance_of(&operator);
        self.operator_balance.insert(operator, b.saturating_add(amount));
        self.cumulative_mint = self.cumulative_mint.saturating_add(amount);
        proof {
            if old(self).mint_accounted() {
                lemma_credit_one(old(self).operator_balance@, operator, amount);
                assert(balances(old(self).operator_balance@).dom() =~= old(self).operator_balance@.dom());
                lemma_map_sum_nonneg(balances(old(self).operator_balance@));
                if old(self).operator_balance@.contains_key(operator) {
                    assert(balances(old(self).operator_balance@).dom().contains(operator));
                }
            }
        }
        Ok(Event::Minted { operator, amount })
    }

    /// Governance (root) sets the elasticity.
    pub fn set_elasticity(&mut self, origin: Origin, elasticity_bps: u32) -> (r: Result<Event, Error>)
        requires
            old(self).wf(),
        ensures
            old(self).within_headroom() && effective_elasticity(elasticity_bps) >= effective_elasticity(old(self).elasticity)
                ==> final(self).within_headroom(),
            old(self).mint_accounted() ==> final(self).mint_accounted(),
            final(self).wf(),
            !(origin is Root) ==> r == Err::<Event, Error>(Error::BadOrigin) && *final(self) == *old(self),
            origin is Root ==> r == Ok::<Event, Error>(Event::ElasticitySet { elasticity_bps })
                && final(self).elasticity == elasticity_bps && final(self).cumulative_burn
                == old(self).cumulative_burn && final(self).cumulative_mint == old(self).cumulative_mint
                && final(self).operator_balance == old(self).operator_balance
                && final(self).processed_burn_batches == old(self).processed_burn_batches,
    {
        if !origin.is_root() {
            return Err(Error::BadOrigin);
        }
        self.elasticity = elasticity_bps;
        proof {
            let burn = self.cumulative_burn as int;
            let e0 = effective_elasticity(old(self).elasticity);
            let e1 = effective_elasticity(elasticity_bps);
            if e1 >= e0 {
                assert(burn * e0 <= burn * e1) by (nonlinear_arith)
                    requires
                        burn >= 0,
                        e0 <= e1,
                ;
                vstd::arithmetic::div_mod::lemma_div_is_ordered(burn * e0, burn * e1, 10_000);
            }
        }
        Ok(Event::ElasticitySet { elasticity_bps })
    }

    /// Mints a settlement batch: all of it within the headroom, or none of
    /// it. Each summary credits its operator in turn.
    pub fn mint_batch(&mut self, caller: AccountId, summaries: Vec<(AccountId, TokenAmount)>) -> (r: Result<
        Vec<Event>,
        Error,
    >)
        requires
            old(self).wf(),
        ensures
            old(self).within_headroom() ==> final(self).within_headroom(),
            old(self).mint_accounted() ==> final(self).mint_accounted(),
            final(self).wf(),
            r is Err ==> *final(self) == *old(self),
            batch_total(summaries@) > u128::MAX ==> r == Err::<Vec<Event>, Error>(Error::ArithmeticOverflow),
            batch_total(summaries@) <= u128::MAX ==> match headroom_result(
                old(self).cumulative_burn,
                old(self).cumulative_mint,
                old(self).elasticity,
                batch_total(summaries@) as u128,
            ) {
                Err(e) => r == Err::<Vec<Event>, Error>(e),
                Ok(()) => match r {
                    Ok(events) => {
                        &&& events@ == summaries@.map_values(
                            |s: (AccountId, TokenAmount)| Event::Minted { operator: s.0, amount: s.1 },
                        )
                        &&& final(self).operator_balance@ == credit_all(
                            old(self).operator_balance@,
                            summaries@,
                        )
                        &&& final(self).cumulative_mint == old(self).cumulative_mint + batch_total(summaries@)
                        &&& final(self).cumulative_burn == old(self).cumulative_burn
                        &&& final(self).elasticity == old(self).elasticity
                        &&& final(self).processed_burn_batches == old(self).processed_burn_batches
                    },
                    Err(_) => false,
                },
            },
    {
        let n = summaries.len();
        let mut total: u128 = 0;
        let mut i: usize = 0;
        while i < n
            invariant
                n == summaries@.len(),
                i <= n,
                self.wf(),
                *self == *old(self),
                total == batch_total(summaries@.take(i as int)),
            decreases n - i,
        {
            proof {
                assert(summaries@.take(i + 1).drop_last() =~= summaries@.take(i as int));
            }
            total = match total.checked_add(summaries[i].1) {
                Some(t) => t,
                None => {
                    proof {
                        lemma_batch_total_prefix_monotone(summaries@, i + 1);
                    }
                    return Err(Error::ArithmeticOverflow);
                },
            };
            i += 1;
        }
        proof {
            assert(summaries@.take(n as int) =~= summaries@);
        }
        self.checked_mint_headroom(total)?;
        let ghost start = *self;
        let mut events: Vec<Event> = Vec::new();
        let mut j: usize = 0;
        while j < n
            invariant
                n == summaries@.len(),
                j <= n,
                self.wf(),
                total == batch_total(summaries@),
                start.cumulative_mint + total <= u128::MAX,
                self.operator_balance@ == credit_all(start.operator_balance@, summaries@.take(j as int)),
                self.cumulative_mint == start.cumulative_mint + batch_total(summaries@.take(j as int)),
                self.cumulative_burn == start.cumulative_burn,
                self.elasticity == start.elasticity,
                self.processed_burn_batches == start.processed_burn_batches,
                events@ == summaries@.take(j as int).map_values(
                    |s: (AccountId, TokenAmount)| Event::Minted { operator: s.0, amount: s.1 },
                ),
            decreases n - j,
        {
            let (operator, amount) = summaries[j];
            proof {
                assert(summaries@.take(j + 1).drop_last() =~= summaries@.take(j as int));
                lemma_batch_total_prefix_monotone(summaries@, j + 1);
                lemma_batch_total_nonneg(summaries@.take(j as int));
            }
            let b = self.operator_balance_of(&operator);
            self.operator_balance.insert(operator, b.saturating_add(amount));
            self.cumulative_mint = self.cumulative_mint + amount;
            events.push(Event::Minted { operator, amount });
            proof {
                assert(events@ =~= summaries@.take(j + 1).map_values(
                    |s: (AccountId, TokenAmount)| Event::Minted { operator: s.0, amount: s.1 },
                ));
            }
            j += 1;
        }
        proof {
            assert(summaries@.take(n as int) =~= summaries@);
            if old(self).mint_accounted() {
                lemma_credit_all(old(self).operator_balance@, summaries@);
            }
        }
        Ok(events)
    }
}

/// Prefix sums of a batch grow with the prefix.
pub proof fn lemma_batch_total_prefix_monotone(summaries: Seq<(AccountId, TokenAmount)>, k: int)
    requires
        0 <= k <= summaries.len(),
    ensures
        batch_total(summaries.take(k)) <= batch_total(summaries),
    decreases summaries.len() - k,
{
    if k < summaries.len() {
        lemma_batch_total_prefix_monotone(summaries, k + 1);
        assert(summaries.take(k + 1).drop_last() =~= summaries.take(k));
    } else {
        assert(summaries.take(k) =~= summaries);
    }
}

} // verus!
