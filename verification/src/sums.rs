//! Sums over finite maps, and how they change as entries come and go.

use vstd::prelude::*;

verus! {

broadcast use vstd::set::group_set_axioms, vstd::map::group_map_axioms;

/// The sum of the values of a finite map (zero for an infinite one).
pub open spec fn map_sum<K>(m: Map<K, int>) -> int
    decreases m.dom().len(),
{
    if m.dom().finite() && m.dom().len() > 0 {
        let k = m.dom().choose();
        proof {
            assert(m.dom().contains(k));
            assert(m.remove(k).dom() =~= m.dom().remove(k));
        }
        m[k] + map_sum(m.remove(k))
    } else {
        0
    }
}

/// Any entry may be taken out of the sum first.
pub proof fn lemma_map_sum_remove<K>(m: Map<K, int>, k: K)
    requires
        m.dom().finite(),
        m.dom().contains(k),
    ensures
        map_sum(m) == m[k] + map_sum(m.remove(k)),
    decreases m.dom().len(),
{
    assert(m.remove(k).dom() =~= m.dom().remove(k));
    let c = m.dom().choose();
    if c != k {
        assert(m.remove(c).dom() =~= m.dom().remove(c));
        lemma_map_sum_remove(m.remove(c), k);
        lemma_map_sum_remove(m.remove(k), c);
        assert(m.remove(c).remove(k) =~= m.remove(k).remove(c));
    }
}

/// Adding an entry for a new key adds its value to the sum.
pub proof fn lemma_map_sum_insert<K>(m: Map<K, int>, k: K, x: int)
    requires
        m.dom().finite(),
        !m.dom().contains(k),
    ensures
        map_sum(m.insert(k, x)) == map_sum(m) + x,
{
    lemma_map_sum_remove(m.insert(k, x), k);
    assert(m.insert(k, x).remove(k) =~= m);
}

/// With positive values, the sum is positive exactly when the map is not
/// empty, and never negative.
pub proof fn lemma_map_sum_positive<K>(m: Map<K, int>)
    requires
        m.dom().finite(),
        forall|k: K| #[trigger] m.dom().contains(k) ==> m[k] > 0,
    ensures
        map_sum(m) >= 0,
        map_sum(m) > 0 <==> m.dom().len() > 0,
    decreases m.dom().len(),
{
    if m.dom().len() > 0 {
        let k = m.dom().choose();
        assert(m.remove(k).dom() =~= m.dom().remove(k));
        lemma_map_sum_positive(m.remove(k));
    }
}

/// The sum over a part of a map with non-negative values is at most the
/// sum over the whole.
pub proof fn lemma_map_sum_part<K>(part: Map<K, int>, m: Map<K, int>)
    requires
        m.dom().finite(),
        part.dom().subset_of(m.dom()),
        forall|k: K| #[trigger] part.dom().contains(k) ==> part[k] == m[k],
        forall|k: K| #[trigger] m.dom().contains(k) ==> m[k] >= 0,
    ensures
        map_sum(part) <= map_sum(m),
    decreases m.dom().len(),
{
    vstd::set_lib::lemma_len_subset(part.dom(), m.dom());
    if m.dom().len() > 0 {
        let k = m.dom().choose();
        assert(m.remove(k).dom() =~= m.dom().remove(k));
        lemma_map_sum_remove(m, k);
        if part.dom().contains(k) {
            lemma_map_sum_remove(part, k);
            assert(part.remove(k).dom() =~= part.dom().remove(k));
            lemma_map_sum_part(part.remove(k), m.remove(k));
        } else {
            lemma_map_sum_part(part, m.remove(k));
        }
    } else {
        assert(part.dom() =~= Set::<K>::empty());
        assert(part.dom().len() == 0);
    }
}


/// Replacing the value at an existing key changes the sum by the
/// difference.
pub proof fn lemma_map_sum_update<K>(m: Map<K, int>, k: K, x: int)
    requires
        m.dom().finite(),
        m.dom().contains(k),
    ensures
        map_sum(m.insert(k, x)) == map_sum(m) - m[k] + x,
{
    lemma_map_sum_remove(m, k);
    lemma_map_sum_remove(m.insert(k, x), k);
    assert(m.insert(k, x).remove(k) =~= m.remove(k));
}

/// With non-negative values, the sum is non-negative and no entry exceeds
/// it.
pub proof fn lemma_map_sum_nonneg<K>(m: Map<K, int>)
    requires
        m.dom().finite(),
        forall|k: K| #[trigger] m.dom().contains(k) ==> m[k] >= 0,
    ensures
        map_sum(m) >= 0,
        forall|k: K| #[trigger] m.dom().contains(k) ==> m[k] <= map_sum(m),
    decreases m.dom().len(),
{
    if m.dom().len() > 0 {
        let c = m.dom().choose();
        assert(m.remove(c).dom() =~= m.dom().remove(c));
        lemma_map_sum_nonneg(m.remove(c));
        assert forall|k: K| #[trigger] m.dom().contains(k) implies m[k] <= map_sum(m) by {
            if k != c {
                assert(m.remove(c).dom().contains(k));
            }
        }
    }
}


/// Each value of `m` times `c`, divided by `g` (rounding down).
pub open spec fn scaled<K>(m: Map<K, int>, c: int, g: int) -> Map<K, int> {
    Map::new(|k: K| m.dom().contains(k), |k: K| m[k] * c / g)
}

/// Rounding down each part loses at least as much as rounding down the
/// whole: `x / g + y / g <= (x + y) / g`.
pub proof fn lemma_floor_div_add(x: int, y: int, g: int)
    requires
        g > 0,
    ensures
        x / g + y / g <= (x + y) / g,
{
    vstd::arithmetic::div_mod::lemma_fundamental_div_mod(x, g);
    vstd::arithmetic::div_mod::lemma_fundamental_div_mod(y, g);
    vstd::arithmetic::div_mod::lemma_fundamental_div_mod(x + y, g);
    let (qx, rx, qy, ry, q, r) = (x / g, x % g, y / g, y % g, (x + y) / g, (x + y) % g);
    assert(0 <= rx < g && 0 <= ry < g && 0 <= r < g);
    assert(qx + qy <= q) by (nonlinear_arith)
        requires
            g > 0,
            x == g * qx + rx,
            y == g * qy + ry,
            x + y == g * q + r,
            0 <= rx,
            0 <= ry,
            r < g,
    ;
}

/// Scaling and rounding down each value of a map with non-negative values
/// sums to at most the scaled, rounded-down sum.
pub proof fn lemma_map_sum_scaled<K>(m: Map<K, int>, c: int, g: int)
    requires
        m.dom().finite(),
        g > 0,
        c >= 0,
        forall|k: K| #[trigger] m.dom().contains(k) ==> m[k] >= 0,
    ensures
        map_sum(scaled(m, c, g)) <= map_sum(m) * c / g,
    decreases m.dom().len(),
{
    assert(scaled(m, c, g).dom() =~= m.dom());
    if m.dom().len() > 0 {
        let k = m.dom().choose();
        assert(m.remove(k).dom() =~= m.dom().remove(k));
        lemma_map_sum_remove(m, k);
        lemma_map_sum_remove(scaled(m, c, g), k);
        assert(scaled(m, c, g).remove(k) =~= scaled(m.remove(k), c, g));
        lemma_map_sum_scaled(m.remove(k), c, g);
        let rest = map_sum(m.remove(k));
        assert(m[k] * c + rest * c == (m[k] + rest) * c) by (nonlinear_arith);
        lemma_floor_div_add(m[k] * c, rest * c, g);
    } else {
        assert(scaled(m, c, g).dom().len() == 0);
        assert(map_sum(m) * c == 0);
    }
}

} // verus!
