//! How an epoch's incentive shares add up.

use vstd::prelude::*;

use super::compute::positive_totals;
use super::scoring::{clipped_weight, grand_total, incentive_share, operator_total, ScoreEntry};
use crate::primitives::AccountId;
use crate::sums::{lemma_map_sum_insert, lemma_map_sum_scaled, lemma_map_sum_update, map_sum, scaled};

verus! {

broadcast use vstd::set::group_set_axioms, vstd::map::group_map_axioms;

/// The exact (unsaturated) total of the clipped weights given to `op` by
/// the first `n` entries.
pub open spec fn exact_total(entries: Seq<ScoreEntry>, op: AccountId, n: nat) -> int
    decreases n,
{
    if n == 0 {
        0
    } else {
        let e = entries[n - 1];
        exact_total(entries, op, (n - 1) as nat) + if e.operator == op {
            clipped_weight(entries, e) as int
        } else {
            0
        }
    }
}

/// The exact (unsaturated) total of the clipped weights of the first `n`
/// entries.
pub open spec fn exact_grand(entries: Seq<ScoreEntry>, n: nat) -> int
    decreases n,
{
    if n == 0 {
        0
    } else {
        exact_grand(entries, (n - 1) as nat) + clipped_weight(entries, entries[n - 1]) as int
    }
}

/// The operators with a positive exact total after `n` entries, with it.
pub open spec fn exact_totals(entries: Seq<ScoreEntry>, n: nat) -> Map<AccountId, int> {
    Map::new(
        |op: AccountId| exact_total(entries, op, n) > 0,
        |op: AccountId| exact_total(entries, op, n),
    )
}

/// The incentive share each operator with a positive total receives when
/// an epoch with these entries is computed.
pub open spec fn epoch_shares(entries: Seq<ScoreEntry>) -> Map<AccountId, int> {
    let totals = positive_totals(entries);
    let grand = grand_total(entries, entries.len());
    Map::new(
        |op: AccountId| totals.contains_key(op),
        |op: AccountId| incentive_share(totals[op], grand) as int,
    )
}

proof fn lemma_exact_grand_grows(entries: Seq<ScoreEntry>, m: nat, n: nat)
    requires
        m <= n,
    ensures
        0 <= exact_grand(entries, m) <= exact_grand(entries, n),
    decreases n,
{
    if m < n {
        lemma_exact_grand_grows(entries, m, (n - 1) as nat);
    } else if n > 0 {
        lemma_exact_grand_grows(entries, 0, (n - 1) as nat);
    }
}

/// Without saturation the pallet's totals are the exact ones, and an
/// operator's total is at most the grand total.
proof fn lemma_totals_exact(entries: Seq<ScoreEntry>, op: AccountId, n: nat)
    requires
        exact_grand(entries, n) <= u128::MAX,
    ensures
        grand_total(entries, n) == exact_grand(entries, n),
        operator_total(entries, op, n) == exact_total(entries, op, n),
        0 <= exact_total(entries, op, n) <= exact_grand(entries, n),
    decreases n,
{
    if n > 0 {
        lemma_exact_grand_grows(entries, (n - 1) as nat, n);
        lemma_totals_exact(entries, op, (n - 1) as nat);
    }
}

/// The operators' exact totals add up to the exact grand total.
proof fn lemma_exact_totals_partition(entries: Seq<ScoreEntry>, n: nat)
    requires
        n <= entries.len(),
    ensures
        exact_totals(entries, n).dom().finite(),
        map_sum(exact_totals(entries, n)) == exact_grand(entries, n),
        forall|op: AccountId| #[trigger] exact_total(entries, op, n) >= 0,
    decreases n,
{
    if n == 0 {
        assert(exact_totals(entries, n).dom() =~= Set::<AccountId>::empty());
    } else {
        let prev = (n - 1) as nat;
        lemma_exact_totals_partition(entries, prev);
        let e = entries[n - 1];
        let w = clipped_weight(entries, e) as int;
        let before = exact_totals(entries, prev);
        let t = exact_total(entries, e.operator, prev);
        assert forall|op: AccountId| #[trigger] exact_total(entries, op, n) >= 0 by {
            assert(exact_total(entries, op, prev) >= 0);
        }
        if w == 0 {
            assert(exact_totals(entries, n) =~= before);
        } else if t > 0 {
            assert(exact_totals(entries, n) =~= before.insert(e.operator, t + w));
            lemma_map_sum_update(before, e.operator, t + w);
        } else {
            assert(exact_totals(entries, n) =~= before.insert(e.operator, w));
            lemma_map_sum_insert(before, e.operator, w);
        }
    }
}

/// Law: when the epoch's clipped, stake-weighted scores sum to at most
/// `u128::MAX / 10_000` (so no total saturates), the incentive shares of
/// the epoch's operators add up to at most 10_000 basis points.
pub proof fn lemma_epoch_shares_within_whole(entries: Seq<ScoreEntry>)
    requires
        exact_grand(entries, entries.len()) * 10_000 <= u128::MAX,
    ensures
        epoch_shares(entries).dom().finite(),
        map_sum(epoch_shares(entries)) <= 10_000,
{
    let n = entries.len();
    let g = exact_grand(entries, n);
    lemma_exact_totals_partition(entries, n);
    let totals = exact_totals(entries, n);
    assert forall|op: AccountId| #[trigger] positive_totals(entries).contains_key(op) == totals.dom().contains(op)
        && (totals.dom().contains(op) ==> positive_totals(entries)[op] == totals[op]) by {
        lemma_totals_exact(entries, op, n);
    }
    if g == 0 {
        assert forall|op: AccountId| !#[trigger] epoch_shares(entries).dom().contains(op) by {
            lemma_totals_exact(entries, op, n);
        }
        assert(epoch_shares(entries).dom() =~= Set::<AccountId>::empty());
    } else {
        // The grand total is exact too (the operator chosen does not matter).
        lemma_totals_exact(entries, entries[0].operator, n);
        assert forall|op: AccountId| totals.dom().contains(op) implies #[trigger] epoch_shares(entries)[op]
            == scaled(totals, 10_000, g)[op] by {
            lemma_totals_exact(entries, op, n);
            let t = totals[op];
            assert(t * 10_000 <= g * 10_000) by (nonlinear_arith)
                requires
                    t <= g,
            ;
            assert(t * 10_000 / g <= 10_000 * g / g) by (nonlinear_arith)
                requires
                    t <= g,
                    g > 0,
                    t >= 0,
            ;
            vstd::arithmetic::div_mod::lemma_div_multiples_vanish(10_000, g);
        }
        assert(epoch_shares(entries) =~= scaled(totals, 10_000, g));
        assert(scaled(totals, 10_000, g).dom() =~= totals.dom());
        lemma_map_sum_scaled(totals, 10_000, g);
        vstd::arithmetic::div_mod::lemma_div_multiples_vanish(10_000, g);
        assert(g * 10_000 == 10_000 * g);
    }
}

} // verus!
