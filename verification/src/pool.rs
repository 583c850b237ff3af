//! Pool state: the per-pair `PoolInfo` record with its checked reserve
//! updates, and the `Pools` registry, the single point of truth mapping
//! each canonical pair to its pool.

use vstd::prelude::*;

use crate::assoc::{map_of, unique_keys, lemma_map_of_contains, lemma_map_of_index,
    lemma_map_of_update, lemma_map_of_insert_at};
use crate::errors::Error;
use crate::pair::{AssetPair, pair_lt};

verus! {

/// One registry entry: the claim-token identifier minted against this
/// pool, and the two reserve quantities in the pair's canonical
/// first/second orientation.
#[derive(Clone, Copy, Debug, PartialEq, Eq, Structural)]
pub struct PoolInfo {
    /// Identifier of the liquidity-claim token of this pool.
    pub claim_asset: u32,
    /// Reserve of the pair's first (smaller-identifier) asset.
    pub reserve_a: u128,
    /// Reserve of the pair's second (larger-identifier) asset.
    pub reserve_b: u128,
}

impl PoolInfo {
    /// Both reserves increased, each through a checked addition.
    pub fn add_reserves(&self, amount_a: u128, amount_b: u128) -> (r: Result<PoolInfo, Error>)
        ensures
            match r {
                Ok(p) => self.reserve_a + amount_a <= u128::MAX && self.reserve_b + amount_b
                    <= u128::MAX && p == (PoolInfo {
                    claim_asset: self.claim_asset,
                    reserve_a: (self.reserve_a + amount_a) as u128,
                    reserve_b: (self.reserve_b + amount_b) as u128,
                }),
                Err(e) => e == Error::Overflow && (self.reserve_a + amount_a > u128::MAX
                    || self.reserve_b + amount_b > u128::MAX),
            },
    {
        let reserve_a = match self.reserve_a.checked_add(amount_a) {
            None => {
                return Err(Error::Overflow);
            },
            Some(v) => v,
        };
        let reserve_b = match self.reserve_b.checked_add(amount_b) {
            None => {
                return Err(Error::Overflow);
            },
            Some(v) => v,
        };
        Ok(PoolInfo { claim_asset: self.claim_asset, reserve_a, reserve_b })
    }

    /// Both reserves decreased, each through a checked subtraction.
    pub fn sub_reserves(&self, amount_a: u128, amount_b: u128) -> (r: Result<PoolInfo, Error>)
        ensures
            match r {
                Ok(p) => amount_a <= self.reserve_a && amount_b <= self.reserve_b && p == (PoolInfo {
                    claim_asset: self.claim_asset,
                    reserve_a: (self.reserve_a - amount_a) as u128,
                    reserve_b: (self.reserve_b - amount_b) as u128,
                }),
                Err(e) => e == Error::Overflow && (amount_a > self.reserve_a || amount_b
                    > self.reserve_b),
            },
    {
        let reserve_a = match self.reserve_a.checked_sub(amount_a) {
            None => {
                return Err(Error::Overflow);
            },
            Some(v) => v,
        };
        let reserve_b = match self.reserve_b.checked_sub(amount_b) {
            None => {
                return Err(Error::Overflow);
            },
            Some(v) => v,
        };
        Ok(PoolInfo { claim_asset: self.claim_asset, reserve_a, reserve_b })
    }

    /// First reserve increased, second decreased, both checked.
    pub fn add_sub_reserves(&self, amount_a: u128, amount_b: u128) -> (r: Result<PoolInfo, Error>)
        ensures
            match r {
                Ok(p) => self.reserve_a + amount_a <= u128::MAX && amount_b <= self.reserve_b && p
                    == (PoolInfo {
                    claim_asset: self.claim_asset,
                    reserve_a: (self.reserve_a + amount_a) as u128,
                    reserve_b: (self.reserve_b - amount_b) as u128,
                }),
                Err(e) => e == Error::Overflow && (self.reserve_a + amount_a > u128::MAX
                    || amount_b > self.reserve_b),
            },
    {
        let reserve_a = match self.reserve_a.checked_add(amount_a) {
            None => {
                return Err(Error::Overflow);
            },
            Some(v) => v,
        };
        let reserve_b = match self.reserve_b.checked_sub(amount_b) {
            None => {
                return Err(Error::Overflow);
            },
            Some(v) => v,
        };
        Ok(PoolInfo { claim_asset: self.claim_asset, reserve_a, reserve_b })
    }
}

/// The pool registry: a keyed store from canonical pair to pool state,
/// kept sorted by the pair order for deterministic listing.
pub struct Pools {
    pub entries: Vec<(AssetPair, PoolInfo)>,
}

/// A sorted registry cannot hold one key twice.
pub proof fn lemma_sorted_unique(s: Seq<(AssetPair, PoolInfo)>)
    requires
        forall|i: int, j: int| 0 <= i < j < s.len() ==> pair_lt(s[i].0, s[j].0),
    ensures
        unique_keys(s),
{
    assert forall|i: int, j: int| 0 <= i < j < s.len() implies s[i].0 != s[j].0 by {
        assert(pair_lt(s[i].0, s[j].0));
    }
}

impl View for Pools {
    type V = Map<AssetPair, PoolInfo>;

    open spec fn view(&self) -> Map<AssetPair, PoolInfo> {
        map_of(self.entries@)
    }
}

impl Pools {
    /// Entries stand in strictly ascending pair order.
    pub open spec fn wf(&self) -> bool {
        forall|i: int, j: int|
            0 <= i < j < self.entries@.len() ==> pair_lt(self.entries@[i].0, self.entries@[j].0)
    }

    /// An empty registry.
    pub fn new() -> (r: Pools)
        ensures
            r.wf(),
            r@ == Map::<AssetPair, PoolInfo>::empty(),
    {
        Pools { entries: Vec::new() }
    }

    /// Whether a pool is registered for this pair.
    #[verifier::loop_isolation(false)]
    pub fn contains_key(&self, pair: &AssetPair) -> (r: bool)
        requires
            self.wf(),
        ensures
            r == self@.contains_key(*pair),
    {
        proof {
            lemma_map_of_contains(self.entries@, *pair);
        }
        let n = self.entries.len();
        let mut i: usize = 0;
        while i < n
            invariant
                n == self.entries@.len(),
                0 <= i <= n,
                self.wf(),
                forall|j: int| 0 <= j < i ==> self.entries@[j].0 != *pair,
            decreases n - i,
        {
            if self.entries[i].0 == *pair {
                proof {
                    assert(self.entries@[i as int].0 == *pair);
                }
                return true;
            }
            i += 1;
        }
        false
    }

    /// The pool registered for this pair, if any.
    #[verifier::loop_isolation(false)]
    pub fn get(&self, pair: &AssetPair) -> (r: Option<PoolInfo>)
        requires
            self.wf(),
        ensures
            match r {
                Some(p) => self@.contains_key(*pair) && p == self@[*pair],
                None => !self@.contains_key(*pair),
            },
    {
        proof {
            lemma_map_of_contains(self.entries@, *pair);
            lemma_sorted_unique(self.entries@);
        }
        let n = self.entries.len();
        let mut i: usize = 0;
        while i < n
            invariant
                n == self.entries@.len(),
                0 <= i <= n,
                self.wf(),
                unique_keys(self.entries@),
                forall|j: int| 0 <= j < i ==> self.entries@[j].0 != *pair,
            decreases n - i,
        {
            if self.entries[i].0 == *pair {
                proof {
                    lemma_map_of_index(self.entries@, i as int);
                }
                return Some(self.entries[i].1);
            }
            i += 1;
        }
        None
    }

    /// Register a zero-reserve pool for a pair; `PoolExists` exactly when
    /// the pair already has an entry.
    pub fn create(&mut self, pair: &AssetPair, claim_asset: u32) -> (r: Result<(), Error>)
        requires
            old(self).wf(),
        ensures
            final(self).wf(),
            match r {
                Ok(()) => !old(self)@.contains_key(*pair) && final(self)@ == old(self)@.insert(
                    *pair,
                    PoolInfo { claim_asset, reserve_a: 0, reserve_b: 0 },
                ),
                Err(e) => e == Error::PoolExists && old(self)@.contains_key(*pair) && *final(self)
                    == *old(self),
            },
    {
        if self.contains_key(pair) {
            return Err(Error::PoolExists);
        }
        self.put(pair, PoolInfo { claim_asset, reserve_a: 0, reserve_b: 0 });
        Ok(())
    }

    /// Unconditional overwrite: insert or replace the entry for a pair.
    /// This is how the engines commit a mutated pool.
    pub fn set(&mut self, pair: &AssetPair, info: PoolInfo)
        requires
            old(self).wf(),
        ensures
            final(self).wf(),
            final(self)@ == old(self)@.insert(*pair, info),
    {
        self.put(pair, info);
    }

    /// Insert or replace, keeping the entries sorted.
    #[verifier::loop_isolation(false)]
    fn put(&mut self, pair: &AssetPair, info: PoolInfo)
        requires
            old(self).wf(),
        ensures
            final(self).wf(),
            final(self)@ == old(self)@.insert(*pair, info),
    {
        proof {
            lemma_sorted_unique(self.entries@);
        }
        let ghost pre = self.entries@;
        let n = self.entries.len();
        let mut i: usize = 0;
        while i < n
            invariant
                self.entries@ == pre,
                n == self.entries@.len(),
                0 <= i <= n,
                self.wf(),
                unique_keys(self.entries@),
                forall|j: int| 0 <= j < i ==> pair_lt(self.entries@[j].0, *pair),
            decreases n - i,
        {
            let head = self.entries[i].0;
            if head.asset_a == pair.asset_a && head.asset_b == pair.asset_b {
                proof {
                    assert(pre[i as int].0 == *pair);
                    lemma_map_of_update(pre, i as int, info);
                }
                let slot = &mut self.entries[i];
                *slot = (*pair, info);
                proof {
                    assert(self.entries@ =~= pre.update(i as int, (pre[i as int].0, info)));
                }
                return ;
            }
            if pair.asset_a < head.asset_a || (pair.asset_a == head.asset_a && pair.asset_b
                < head.asset_b) {
                // Every later entry is larger still, so the key is absent:
                // insert it here.
                proof {
                    assert(pair_lt(*pair, pre[i as int].0));
                    assert forall|j: int| 0 <= j < pre.len() implies pre[j].0 != *pair by {
                        if j < i {
                            assert(pair_lt(pre[j].0, *pair));
                        } else if j > i {
                            assert(pair_lt(pre[i as int].0, pre[j].0));
                        }
                    }
                    lemma_map_of_insert_at(pre, i as int, *pair, info);
                    pre.insert_ensures(i as int, (*pair, info));
                }
                self.entries.insert(i, (*pair, info));
                proof {
                    let cur = self.entries@;
                    assert(cur == pre.insert(i as int, (*pair, info)));
                    assert forall|x: int, y: int| 0 <= x < y < cur.len() implies pair_lt(
                        cur[x].0,
                        cur[y].0,
                    ) by {
                        if y < i {
                            assert(cur[x] == pre[x] && cur[y] == pre[y]);
                        } else if y == i {
                            assert(cur[x] == pre[x] && cur[y] == (*pair, info));
                            assert(pair_lt(pre[x].0, *pair));
                        } else {
                            assert(cur[y] == pre[y - 1]);
                            if x < i {
                                assert(cur[x] == pre[x]);
                                if y - 1 == i {
                                    assert(x < i);
                                } else {
                                    assert(pair_lt(pre[x].0, pre[y - 1].0));
                                }
                            } else if x == i {
                                assert(cur[x] == (*pair, info));
                                assert(pair_lt(*pair, pre[i as int].0));
                                if y - 1 > i {
                                    assert(pair_lt(pre[i as int].0, pre[y - 1].0));
                                }
                            } else {
                                assert(cur[x] == pre[x - 1]);
                                assert(pair_lt(pre[x - 1].0, pre[y - 1].0));
                            }
                        }
                    }
                }
                return ;
            }
            proof {
                assert(pair_lt(self.entries@[i as int].0, *pair));
            }
            i += 1;
        }
        // The key is larger than every entry: append it.
        proof {
            assert forall|j: int| 0 <= j < pre.len() implies pre[j].0 != *pair by {
                assert(pair_lt(pre[j].0, *pair));
            }
            lemma_map_of_insert_at(pre, n as int, *pair, info);
            assert(pre.insert(n as int, (*pair, info)) =~= pre.push((*pair, info)));
        }
        self.entries.push((*pair, info));
        proof {
            let cur = self.entries@;
            assert(cur == pre.push((*pair, info)));
            assert forall|x: int, y: int| 0 <= x < y < cur.len() implies pair_lt(
                cur[x].0,
                cur[y].0,
            ) by {
                if y < n {
                    assert(cur[x] == pre[x] && cur[y] == pre[y]);
                } else {
                    assert(cur[y] == (*pair, info));
                    assert(cur[x] == pre[x]);
                    assert(pair_lt(pre[x].0, *pair));
                }
            }
        }
    }

    /// The registered pairs, in ascending order.
    #[verifier::loop_isolation(false)]
    pub fn pairs(&self) -> (r: Vec<AssetPair>)
        requires
            self.wf(),
        ensures
            r@.len() == self.entries@.len(),
            forall|i: int| 0 <= i < r@.len() ==> r@[i] == self.entries@[i].0 && self@.contains_key(
                r@[i],
            ),
            forall|i: int, j: int| 0 <= i < j < r@.len() ==> pair_lt(r@[i], r@[j]),
            forall|k: AssetPair| self@.contains_key(k) ==> r@.contains(k),
    {
        proof {
            lemma_sorted_unique(self.entries@);
        }
        let n = self.entries.len();
        let mut r: Vec<AssetPair> = Vec::new();
        let mut i: usize = 0;
        while i < n
            invariant
                n == self.entries@.len(),
                0 <= i <= n,
                self.wf(),
                unique_keys(self.entries@),
                r@.len() == i,
                forall|j: int| 0 <= j < i ==> r@[j] == self.entries@[j].0,
            decreases n - i,
        {
            r.push(self.entries[i].0);
            i += 1;
        }
        proof {
            assert forall|j: int| 0 <= j < r@.len() implies self@.contains_key(r@[j]) by {
                lemma_map_of_index(self.entries@, j);
            }
            assert forall|k: AssetPair| self@.contains_key(k) implies r@.contains(k) by {
                lemma_map_of_contains(self.entries@, k);
                let j = choose|j: int|
                    0 <= j < self.entries@.len() && self.entries@[j].0 == k;
                assert(r@[j] == k);
            }
        }
        r
    }
}

} // verus!
