//! Customer-nonce anti-replay: a nonce recorded at block `b` cannot be
//! recorded again before block `b + REPLAY_WINDOW_BLOCKS`. Expired nonces
//! are pruned in bounded batches at the start of each block.

use vstd::prelude::*;

use crate::encoding::{
    bytes_lt, lemma_lex_irreflexive, lemma_lex_total, lemma_lex_transitive, lemma_storage_key_injective, lex_lt,
    storage_key, storage_key_of,
};
use crate::keymap::KeyMap;
use crate::primitives::{sat_add_u64, sat_sub_u64, BlockNumber, Origin, RuntimeDbWeight, Weight, H256};

verus! {

/// Replay window in blocks: 24 hours of 6-second blocks.
pub const REPLAY_WINDOW_BLOCKS: u64 = 14_400;

/// Most expired nonces evicted per block.
pub const PRUNE_BATCH_PER_BLOCK: u32 = 64;

/// Most stored nonces examined per block while looking for expired ones.
pub const PRUNE_SCAN_LIMIT_PER_BLOCK: u32 = 128;

#[derive(Clone, Copy, Debug, PartialEq, Eq, Structural)]
pub enum Event {
    NonceRecorded { nonce: H256 },
    NoncesPruned { count: u32 },
}

#[derive(Clone, Copy, Debug, PartialEq, Eq, Structural)]
pub enum Error {
    /// The origin is not the one the call requires.
    BadOrigin,
    Replay,
}

/// The pallet's storage: each nonce with the block it was recorded at.
pub struct Pallet {
    pub nonces: KeyMap<H256, BlockNumber>,
}

/// A nonce recorded at `recorded_at` may be used again at `now`.
pub open spec fn expired(now: BlockNumber, recorded_at: BlockNumber) -> bool {
    sat_sub_u64(now, recorded_at) >= REPLAY_WINDOW_BLOCKS
}

/// `a` is stored before `b`: its storage key sorts first.
pub open spec fn stored_before(a: H256, b: H256) -> bool {
    lex_lt(storage_key(a), storage_key(b))
}

/// How many of `keys` are stored before `k`.
pub open spec fn rank_among(keys: Seq<H256>, k: H256) -> nat
    decreases keys.len(),
{
    if keys.len() == 0 {
        0
    } else {
        rank_among(keys.drop_last(), k) + if stored_before(keys.last(), k) { 1nat } else { 0nat }
    }
}

/// How many of `keys` are stored before `k` and expired at `now`.
pub open spec fn expired_among(keys: Seq<H256>, m: Map<H256, BlockNumber>, now: BlockNumber, k: H256) -> nat
    decreases keys.len(),
{
    if keys.len() == 0 {
        0
    } else {
        let x = keys.last();
        expired_among(keys.drop_last(), m, now, k) + if stored_before(x, k) && expired(now, m[x]) {
            1nat
        } else {
            0nat
        }
    }
}

/// A pruning pass at `now` over the stored nonces `keys` (with records `m`)
/// evicts `k`: walking the nonces in storage order, `k` is among the first
/// `PRUNE_SCAN_LIMIT_PER_BLOCK`, expired, and fewer than
/// `PRUNE_BATCH_PER_BLOCK` expired nonces came before it.
pub open spec fn evicted_from(keys: Seq<H256>, m: Map<H256, BlockNumber>, now: BlockNumber, k: H256) -> bool {
    &&& m.contains_key(k)
    &&& rank_among(keys, k) < PRUNE_SCAN_LIMIT_PER_BLOCK
    &&& expired(now, m[k])
    &&& expired_among(keys, m, now, k) < PRUNE_BATCH_PER_BLOCK
}

/// The nonces of `prefix` that the pass evicts, in order.
pub open spec fn evictions(prefix: Seq<H256>, keys: Seq<H256>, m: Map<H256, BlockNumber>, now: BlockNumber) -> Seq<H256>
    decreases prefix.len(),
{
    if prefix.len() == 0 {
        Seq::empty()
    } else {
        let rest = evictions(prefix.drop_last(), keys, m, now);
        if evicted_from(keys, m, now, prefix.last()) {
            rest.push(prefix.last())
        } else {
            rest
        }
    }
}

proof fn lemma_evictions(prefix: Seq<H256>, keys: Seq<H256>, m: Map<H256, BlockNumber>, now: BlockNumber)
    requires
        prefix.no_duplicates(),
    ensures
        evictions(prefix, keys, m, now).no_duplicates(),
        forall|x: H256| #[trigger] evictions(prefix, keys, m, now).contains(x) <==> prefix.contains(x)
            && evicted_from(keys, m, now, x),
    decreases prefix.len(),
{
    if prefix.len() > 0 {
        let pre = prefix.drop_last();
        assert(pre.no_duplicates());
        lemma_evictions(pre, keys, m, now);
        assert forall|x: H256| prefix.contains(x) <==> (pre.contains(x) || x == prefix.last()) by {
            if prefix.contains(x) {
                let t = choose|t: int| 0 <= t < prefix.len() && prefix[t] == x;
                if t < prefix.len() - 1 {
                    assert(pre[t] == x);
                }
            }
            if pre.contains(x) {
                let t = choose|t: int| 0 <= t < pre.len() && pre[t] == x;
                assert(prefix[t] == x);
            }
            if x == prefix.last() {
                assert(prefix[prefix.len() - 1] == x);
            }
        }
        assert(!pre.contains(prefix.last()));
        let rest = evictions(pre, keys, m, now);
        let x = prefix.last();
        if evicted_from(keys, m, now, x) {
            assert(!rest.contains(x));
            assert forall|y: H256| rest.push(x).contains(y) <==> (rest.contains(y) || y == x) by {
                if rest.push(x).contains(y) {
                    let t = choose|t: int| 0 <= t < rest.push(x).len() && rest.push(x)[t] == y;
                    if t < rest.len() {
                        assert(rest[t] == y);
                    }
                }
                if rest.contains(y) {
                    let t = choose|t: int| 0 <= t < rest.len() && rest[t] == y;
                    assert(rest.push(x)[t] == y);
                }
                if y == x {
                    assert(rest.push(x)[rest.len() as int] == y);
                }
            }
            assert forall|a: int, b: int| 0 <= a < b < rest.push(x).len() implies rest.push(x)[a] != rest.push(
                x,
            )[b] by {
                if b == rest.len() {
                    assert(rest.contains(rest[a]));
                }
            }
        }
        assert forall|y: H256| #[trigger] evictions(prefix, keys, m, now).contains(y) <==> prefix.contains(y)
            && evicted_from(keys, m, now, y) by {
            assert(rest.contains(y) <==> pre.contains(y) && evicted_from(keys, m, now, y));
        }
    }
}

/// Everything counted before `x` is counted before `y` when `x` is stored
/// before `y`.
proof fn lemma_expired_among_monotone(
    keys: Seq<H256>,
    m: Map<H256, BlockNumber>,
    now: BlockNumber,
    x: H256,
    y: H256,
)
    requires
        stored_before(x, y),
    ensures
        expired_among(keys, m, now, x) <= expired_among(keys, m, now, y),
    decreases keys.len(),
{
    if keys.len() > 0 {
        lemma_expired_among_monotone(keys.drop_last(), m, now, x, y);
        let z = keys.last();
        if stored_before(z, x) {
            lemma_lex_transitive(storage_key(z), storage_key(x), storage_key(y));
        }
    }
}

/// An expired nonce `x` stored before `y` counts before `y` but not before
/// itself.
proof fn lemma_expired_among_grows(
    keys: Seq<H256>,
    m: Map<H256, BlockNumber>,
    now: BlockNumber,
    x: H256,
    y: H256,
)
    requires
        stored_before(x, y),
        keys.contains(x),
        expired(now, m[x]),
    ensures
        expired_among(keys, m, now, x) + 1 <= expired_among(keys, m, now, y),
    decreases keys.len(),
{
    let pre = keys.drop_last();
    let z = keys.last();
    if z == x {
        lemma_expired_among_monotone(pre, m, now, x, y);
        lemma_lex_irreflexive(storage_key(x));
    } else {
        let t = choose|t: int| 0 <= t < keys.len() && keys[t] == x;
        assert(pre[t] == x);
        lemma_expired_among_grows(pre, m, now, x, y);
        if stored_before(z, x) {
            lemma_lex_transitive(storage_key(z), storage_key(x), storage_key(y));
        }
    }
}

/// A pass evicts at most `PRUNE_BATCH_PER_BLOCK` nonces.
proof fn lemma_evictions_bounded(keys: Seq<H256>, m: Map<H256, BlockNumber>, now: BlockNumber)
    requires
        keys.no_duplicates(),
    ensures
        evictions(keys, keys, m, now).len() <= PRUNE_BATCH_PER_BLOCK,
{
    let v = evictions(keys, keys, m, now);
    lemma_evictions(keys, keys, m, now);
    v.unique_seq_to_set();
    let vs = v.to_set();
    let f = |x: H256| expired_among(keys, m, now, x) as int;
    assert forall|a: H256, b: H256| vs.contains(a) && vs.contains(b) && #[trigger] f(a) == #[trigger] f(b)
        implies a == b by {
        assert(v.contains(a) && v.contains(b));
        if a != b {
            if storage_key(a) == storage_key(b) {
                lemma_storage_key_injective(a, b);
            }
            lemma_lex_total(storage_key(a), storage_key(b));
            if stored_before(a, b) {
                lemma_expired_among_grows(keys, m, now, a, b);
            } else {
                lemma_expired_among_grows(keys, m, now, b, a);
            }
        }
    }
    vstd::set_lib::lemma_map_size(vs, vs.map(f), f);
    vstd::set_lib::lemma_int_range(0, PRUNE_BATCH_PER_BLOCK as int);
    assert forall|i: int| #[trigger] vs.map(f).contains(i) implies vstd::set_lib::set_int_range(
        0,
        PRUNE_BATCH_PER_BLOCK as int,
    ).contains(i) by {
        let a = choose|a: H256| vs.contains(a) && f(a) == i;
        assert(v.contains(a));
    }
    vstd::set_lib::lemma_len_subset(vs.map(f), vstd::set_lib::set_int_range(0, PRUNE_BATCH_PER_BLOCK as int));
}

impl Pallet {
    pub open spec fn wf(&self) -> bool {
        self.nonces.wf()
    }

    pub fn new() -> (p: Pallet)
        ensures
            p.wf(),
            p.nonces@ == Map::<H256, BlockNumber>::empty(),
    {
        Pallet { nonces: KeyMap::new() }
    }

    /// The gateway (root) records a nonce; a nonce still inside its replay
    /// window is refused.
    pub fn record_nonce(&mut self, origin: Origin, nonce: H256, now: BlockNumber) -> (r: Result<Event, Error>)
        requires
            old(self).wf(),
        ensures
            final(self).wf(),
            r is Err ==> *final(self) == *old(self),
            r == if !(origin is Root) {
                Err::<Event, Error>(Error::BadOrigin)
            } else if old(self).nonces@.contains_key(nonce) && !expired(now, old(self).nonces@[nonce]) {
                Err(Error::Replay)
            } else {
                Ok(Event::NonceRecorded { nonce })
            },
            r is Ok ==> final(self).nonces@ == old(self).nonces@.insert(nonce, now),
    {
        if !origin.is_root() {
            return Err(Error::BadOrigin);
        }
        match self.nonces.get(&nonce) {
            Some(recorded_at) => {
                if now.saturating_sub(*recorded_at) < REPLAY_WINDOW_BLOCKS {
                    return Err(Error::Replay);
                }
            },
            None => {},
        }
        self.nonces.insert(nonce, now);
        Ok(Event::NonceRecorded { nonce })
    }

    /// Whether `nonce` may be used at block `now`: unseen, or out of its
    /// replay window.
    pub fn check_nonce(&self, nonce: H256, now: BlockNumber) -> (b: bool)
        requires
            self.wf(),
        ensures
            b == (!self.nonces@.contains_key(nonce) || expired(now, self.nonces@[nonce])),
    {
        match self.nonces.get(&nonce) {
            Some(at) => now.saturating_sub(*at) >= REPLAY_WINDOW_BLOCKS,
            None => true,
        }
    }

    /// Start-of-block pruning: walking the stored nonces in storage order,
    /// evicts the expired ones among the first `PRUNE_SCAN_LIMIT_PER_BLOCK`,
    /// at most `PRUNE_BATCH_PER_BLOCK`. Returns the weight spent and, when
    /// something was evicted, the event.
    pub fn on_initialize(&mut self, now: BlockNumber, db: RuntimeDbWeight) -> (r: (Weight, Option<Event>))
        requires
            old(self).wf(),
        ensures
            final(self).wf(),
            ({
                let keys = old(self).nonces.keys();
                let m = old(self).nonces@;
                let pruned = evictions(keys, keys, m, now).len();
                &&& final(self).nonces@ == Map::new(
                    |k: H256| m.contains_key(k) && !evicted_from(keys, m, now, k),
                    |k: H256| m[k],
                )
                &&& pruned <= PRUNE_BATCH_PER_BLOCK
                &&& forall|k: H256| #[trigger]
                    m.contains_key(k) && !expired(now, m[k]) ==> final(self).nonces@.contains_key(k)
                        && final(self).nonces@[k] == m[k]
                &&& r.0 == db.spec_reads_writes(sat_add_u64(pruned as u64, 1), pruned as u64)
                &&& r.1 == if pruned > 0 {
                    Some(Event::NoncesPruned { count: pruned as u32 })
                } else {
                    None::<Event>
                }
            }),
    {
        let ghost keys = self.nonces.keys();
        let ghost m = self.nonces@;
        proof {
            self.nonces.lemma_keys();
            lemma_evictions(keys, keys, m, now);
            lemma_evictions_bounded(keys, m, now);
        }
        let n = self.nonces.len();
        let mut skeys: Vec<Vec<u8>> = Vec::new();
        let mut i: usize = 0;
        while i < n
            invariant
                self.wf(),
                keys == self.nonces.keys(),
                n == keys.len(),
                i <= n,
                skeys@.len() == i,
                forall|j: int| 0 <= j < i ==> (#[trigger] skeys@[j])@ == storage_key(keys[j]),
            decreases n - i,
        {
            skeys.push(storage_key_of(&self.nonces.key_at(i)));
            i += 1;
        }
        let mut to_remove: Vec<H256> = Vec::new();
        let mut i: usize = 0;
        while i < n
            invariant
                self.wf(),
                keys == self.nonces.keys(),
                m == self.nonces@,
                n == keys.len(),
                i <= n,
                skeys@.len() == n,
                forall|j: int| 0 <= j < n ==> (#[trigger] skeys@[j])@ == storage_key(keys[j]),
                to_remove@ == evictions(keys.take(i as int), keys, m, now),
            decreases n - i,
        {
            let k = self.nonces.key_at(i);
            let recorded_at = *self.nonces.value_at(i);
            let mut rank: usize = 0;
            let mut expired_before: usize = 0;
            let mut j: usize = 0;
            while j < n
                invariant
                    self.wf(),
                    keys == self.nonces.keys(),
                    m == self.nonces@,
                    n == keys.len(),
                    i < n,
                    k == keys[i as int],
                    j <= n,
                    skeys@.len() == n,
                    forall|t: int| 0 <= t < n ==> (#[trigger] skeys@[t])@ == storage_key(keys[t]),
                    rank == rank_among(keys.take(j as int), k),
                    expired_before == expired_among(keys.take(j as int), m, now, k),
                    rank <= j,
                    expired_before <= j,
                decreases n - j,
            {
                proof {
                    assert(keys.take(j + 1).drop_last() =~= keys.take(j as int));
                    self.nonces.lemma_keys();
                }
                if bytes_lt(&skeys[j], &skeys[i]) {
                    rank += 1;
                    let at = *self.nonces.value_at(j);
                    if now.saturating_sub(at) >= REPLAY_WINDOW_BLOCKS {
                        expired_before += 1;
                    }
                }
                j += 1;
            }
            proof {
                assert(keys.take(n as int) =~= keys);
                assert(keys.take(i + 1).drop_last() =~= keys.take(i as int));
                self.nonces.lemma_keys();
            }
            if rank < PRUNE_SCAN_LIMIT_PER_BLOCK as usize && now.saturating_sub(recorded_at) >= REPLAY_WINDOW_BLOCKS
                && expired_before < PRUNE_BATCH_PER_BLOCK as usize {
                to_remove.push(k);
            }
            i += 1;
        }
        proof {
            assert(keys.take(n as int) =~= keys);
        }
        let ghost victims = to_remove@;
        let pruned: u32 = to_remove.len() as u32;
        let mut j: usize = 0;
        while j < to_remove.len()
            invariant
                self.wf(),
                victims == to_remove@,
                j <= victims.len(),
                self.nonces@ == Map::new(
                    |k: H256| m.contains_key(k) && !victims.take(j as int).contains(k),
                    |k: H256| m[k],
                ),
            decreases victims.len() - j,
        {
            let k = to_remove[j];
            self.nonces.remove(&k);
            proof {
                assert forall|x: H256| victims.take(j + 1).contains(x) <==> (victims.take(j as int).contains(x)
                    || x == k) by {
                    let pre = victims.take(j as int);
                    let post = victims.take(j + 1);
                    if post.contains(x) {
                        let t = choose|t: int| 0 <= t < post.len() && post[t] == x;
                        if t < j {
                            assert(pre[t] == x);
                        }
                    }
                    if pre.contains(x) {
                        let t = choose|t: int| 0 <= t < pre.len() && pre[t] == x;
                        assert(post[t] == x);
                    }
                    if x == k {
                        assert(post[j as int] == x);
                    }
                }
                assert(self.nonces@ =~= Map::new(
                    |x: H256| m.contains_key(x) && !victims.take(j + 1).contains(x),
                    |x: H256| m[x],
                ));
            }
            j += 1;
        }
        proof {
            assert(victims.take(victims.len() as int) =~= victims);
            assert forall|x: H256| m.contains_key(x) implies (victims.contains(x) <==> evicted_from(keys, m, now, x)) by {
                assert(keys.contains(x));
            }
            assert(self.nonces@ =~= Map::new(
                |x: H256| m.contains_key(x) && !evicted_from(keys, m, now, x),
                |x: H256| m[x],
            ));
        }
        let event = if pruned > 0 { Some(Event::NoncesPruned { count: pruned }) } else { None };
        (db.reads_writes((pruned as u64).saturating_add(1), pruned as u64), event)
    }

}


/// Law: a nonce still inside its replay window at block `later` was inside
/// it at every earlier block `t` since it was recorded, so no pruning pass
/// in between evicts it and recording it again at `later` is refused.
pub proof fn lemma_window_outlives_pruning(recorded_at: BlockNumber, t: BlockNumber, later: BlockNumber)
    requires
        t <= later,
        !expired(later, recorded_at),
    ensures
        !expired(t, recorded_at),
{
}

} // verus!
