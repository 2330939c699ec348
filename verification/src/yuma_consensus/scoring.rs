//! Yuma scoring: per-operator medians of submitted scores, clipping to the
//! median, stake weighting and the per-operator score totals.

use vstd::prelude::*;

use crate::keymap::KeyMap;
use crate::primitives::{sat_add_u128, sat_mul_u128, AccountId, BPS};
use crate::sorting::{lemma_sorted_u64, lower_median, lower_median_of, sorted_u64};

verus! {

/// A validator's weight vector for an epoch together with the stake weight
/// that was snapshotted when the vector was submitted.
#[derive(Clone, Debug)]
pub struct WeightSubmission {
    pub stake_weight: u128,
    pub vector: Vec<(AccountId, u16)>,
}

/// One submitted score, flattened out of its submission.
#[derive(Clone, Copy, Debug, PartialEq, Eq, Structural)]
pub struct ScoreEntry {
    pub operator: AccountId,
    pub stake_weight: u128,
    pub score: u16,
}

/// The scores of a submission, each tagged with the submission's stake.
pub open spec fn entries_of(sub: WeightSubmission) -> Seq<ScoreEntry> {
    sub.vector@.map_values(
        |p: (AccountId, u16)| ScoreEntry { operator: p.0, stake_weight: sub.stake_weight, score: p.1 },
    )
}

/// All scores of a sequence of submissions, submission by submission.
pub open spec fn flatten(subs: Seq<WeightSubmission>) -> Seq<ScoreEntry>
    decreases subs.len(),
{
    if subs.len() == 0 {
        Seq::empty()
    } else {
        flatten(subs.drop_last()) + entries_of(subs.last())
    }
}

/// The scores given to `op`, in submission order.
pub open spec fn scores_of(entries: Seq<ScoreEntry>, op: AccountId) -> Seq<u64>
    decreases entries.len(),
{
    if entries.len() == 0 {
        Seq::empty()
    } else {
        let prev = scores_of(entries.drop_last(), op);
        if entries.last().operator == op {
            prev.push(entries.last().score as u64)
        } else {
            prev
        }
    }
}

/// Whether some entry scores `op`.
pub open spec fn scored(entries: Seq<ScoreEntry>, op: AccountId) -> bool {
    exists|i: int| 0 <= i < entries.len() && #[trigger] entries[i].operator == op
}

/// The lower median of the scores given to `op` (0 when `op` has none).
pub open spec fn operator_median(entries: Seq<ScoreEntry>, op: AccountId) -> u16 {
    lower_median(scores_of(entries, op)) as u16
}

/// An entry's score clipped to its operator's median and weighted by stake.
pub open spec fn clipped_weight(entries: Seq<ScoreEntry>, e: ScoreEntry) -> u128 {
    let median = operator_median(entries, e.operator);
    let clipped = if e.score <= median { e.score } else { median };
    sat_mul_u128(e.stake_weight, clipped as u128)
}

/// Saturating total of the clipped weights given to `op` by the first `n`
/// entries.
pub open spec fn operator_total(entries: Seq<ScoreEntry>, op: AccountId, n: nat) -> u128
    decreases n,
{
    if n == 0 {
        0
    } else {
        let prev = operator_total(entries, op, (n - 1) as nat);
        let e = entries[n - 1];
        if e.operator == op {
            sat_add_u128(prev, clipped_weight(entries, e))
        } else {
            prev
        }
    }
}

/// Saturating total of the clipped weights of the first `n` entries.
pub open spec fn grand_total(entries: Seq<ScoreEntry>, n: nat) -> u128
    decreases n,
{
    if n == 0 {
        0
    } else {
        sat_add_u128(grand_total(entries, (n - 1) as nat), clipped_weight(entries, entries[n - 1]))
    }
}

/// An operator's incentive share in basis points of the total.
pub open spec fn incentive_share(total: u128, grand: u128) -> u32 {
    let share = sat_mul_u128(total, BPS) / grand;
    if share <= u32::MAX as u128 {
        share as u32
    } else {
        u32::MAX
    }
}

pub proof fn lemma_scores_of(entries: Seq<ScoreEntry>, op: AccountId)
    ensures
        forall|j: int|
            0 <= j < scores_of(entries, op).len() ==> #[trigger] scores_of(entries, op)[j]
                <= u16::MAX,
        scores_of(entries, op).len() > 0 <==> scored(entries, op),
    decreases entries.len(),
{
    if entries.len() > 0 {
        lemma_scores_of(entries.drop_last(), op);
        let prev = entries.drop_last();
        if scored(entries, op) && entries.last().operator != op {
            let i = choose|i: int| 0 <= i < entries.len() && #[trigger] entries[i].operator == op;
            assert(prev[i].operator == op);
        }
        if scored(prev, op) {
            let i = choose|i: int| 0 <= i < prev.len() && #[trigger] prev[i].operator == op;
            assert(entries[i].operator == op);
        }
        if entries.last().operator == op {
            assert(entries[entries.len() - 1].operator == op);
        }
    }
}

pub proof fn lemma_operator_median_bounded(entries: Seq<ScoreEntry>, op: AccountId)
    ensures
        lower_median(scores_of(entries, op)) <= u16::MAX,
{
    let s = scores_of(entries, op);
    lemma_scores_of(entries, op);
    if s.len() > 0 {
        lemma_sorted_u64(s);
        let m = sorted_u64(s)[(s.len() - 1) / 2];
        assert(s.contains(m));
    }
}

/// The scores given to `op`, in submission order.
pub fn scores_for(entries: &Vec<ScoreEntry>, op: AccountId) -> (r: Vec<u64>)
    ensures
        r@ == scores_of(entries@, op),
{
    let mut r: Vec<u64> = Vec::new();
    let mut i: usize = 0;
    while i < entries.len()
        invariant
            i <= entries@.len(),
            r@ == scores_of(entries@.take(i as int), op),
        decreases entries@.len() - i,
    {
        proof {
            assert(entries@.take(i + 1).drop_last() =~= entries@.take(i as int));
        }
        if entries[i].operator == op {
            r.push(entries[i].score as u64);
        }
        i += 1;
    }
    proof {
        assert(entries@.take(entries@.len() as int) =~= entries@);
    }
    r
}

/// The lower median of every scored operator's scores.
pub fn operator_medians(entries: &Vec<ScoreEntry>) -> (m: KeyMap<AccountId, u16>)
    ensures
        m.wf(),
        forall|op: AccountId| #[trigger] m@.contains_key(op) <==> scored(entries@, op),
        forall|op: AccountId| #[trigger] m@.contains_key(op) ==> m@[op] == operator_median(entries@, op),
{
    let mut m: KeyMap<AccountId, u16> = KeyMap::new();
    let mut i: usize = 0;
    while i < entries.len()
        invariant
            i <= entries@.len(),
            m.wf(),
            forall|op: AccountId| #[trigger] m@.contains_key(op) <==> scored(entries@.take(i as int), op),
            forall|op: AccountId| #[trigger] m@.contains_key(op) ==> m@[op] == operator_median(entries@, op),
        decreases entries@.len() - i,
    {
        let op = entries[i].operator;
        if !m.contains_key(&op) {
            let scores = scores_for(entries, op);
            proof {
                lemma_operator_median_bounded(entries@, op);
            }
            let median = lower_median_of(&scores);
            m.insert(op, median as u16);
        }
        proof {
            assert forall|o: AccountId| #[trigger] m@.contains_key(o) <==> scored(entries@.take(i + 1), o) by {
                let pre = entries@.take(i as int);
                let post = entries@.take(i + 1);
                if scored(pre, o) {
                    let j = choose|j: int| 0 <= j < pre.len() && #[trigger] pre[j].operator == o;
                    assert(post[j].operator == o);
                }
                if scored(post, o) && o != op {
                    let j = choose|j: int| 0 <= j < post.len() && #[trigger] post[j].operator == o;
                    assert(j != i);
                    assert(pre[j].operator == o);
                }
                if o == op {
                    assert(post[i as int].operator == o);
                }
            }
        }
        i += 1;
    }
    proof {
        assert(entries@.take(entries@.len() as int) =~= entries@);
    }
    m
}

/// The median recorded for `op`, or 0 when `op` has none.
pub fn median_score(medians: &KeyMap<AccountId, u16>, op: &AccountId) -> (r: u16)
    requires
        medians.wf(),
    ensures
        r == if medians@.contains_key(*op) { medians@[*op] } else { 0 },
{
    match medians.get(op) {
        Some(m) => *m,
        None => 0,
    }
}

} // verus!
