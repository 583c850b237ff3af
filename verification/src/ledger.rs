//! The asset ledger: balances, issuance and minimum balance per asset
//! identifier, plus the native currency used for the pool-creation fee.
//!
//! Every operation's contract states the complete outcome: which balances
//! change and by how much, that issuance moves only under an explicit mint
//! or burn, and that a failed operation leaves the ledger untouched.

use vstd::prelude::*;

use crate::assoc::{map_of, unique_keys, lemma_map_of_contains, lemma_map_of_index,
    lemma_map_of_update, lemma_map_of_push};
use crate::errors::TokenError;

verus! {

/// The ledger state of one asset.
pub struct AssetRecord {
    /// The asset identifier.
    pub id: u32,
    /// The minimum balance the asset was created with.
    pub min_balance: u128,
    /// Total issuance: the sum of every account's balance of this asset.
    pub issuance: u128,
    /// Per-account balances; absent accounts hold zero.
    pub balances: Vec<(u64, u128)>,
}

/// The ledger: the native currency's balances and every asset's state.
pub struct Ledger {
    /// The minimum balance of the native currency.
    pub native_min_balance: u128,
    /// Native balances; absent accounts hold zero.
    pub native: Vec<(u64, u128)>,
    /// One record per created asset.
    pub assets: Vec<AssetRecord>,
}

/// The mathematical state of one asset.
pub ghost struct AssetView {
    pub min_balance: u128,
    pub issuance: u128,
    pub balances: Map<u64, u128>,
}

/// The mathematical state of the whole ledger.
pub ghost struct LedgerView {
    pub native_min_balance: u128,
    pub native: Map<u64, u128>,
    pub assets: Map<u32, AssetView>,
}

/// The balance mapped to a key, taking absence as zero.
pub open spec fn lookup_or_zero(m: Map<u64, u128>, k: u64) -> u128 {
    if m.contains_key(k) {
        m[k]
    } else {
        0
    }
}

/// One asset record as a keyed map entry.
pub open spec fn asset_view(r: AssetRecord) -> AssetView {
    AssetView { min_balance: r.min_balance, issuance: r.issuance, balances: map_of(r.balances@) }
}

/// The asset list as a sequence of keyed map entries.
pub open spec fn assets_entries(s: Seq<AssetRecord>) -> Seq<(u32, AssetView)> {
    s.map_values(|r: AssetRecord| (r.id, asset_view(r)))
}

impl LedgerView {
    /// The native balance of an account.
    pub open spec fn native_of(self, who: u64) -> u128 {
        lookup_or_zero(self.native, who)
    }

    /// Whether an asset with this identifier has been created.
    pub open spec fn asset_exists(self, id: u32) -> bool {
        self.assets.contains_key(id)
    }

    /// Total issuance of an asset; zero for an unknown asset.
    pub open spec fn issuance_of(self, id: u32) -> u128 {
        if self.assets.contains_key(id) {
            self.assets[id].issuance
        } else {
            0
        }
    }

    /// The minimum balance of an asset; zero for an unknown asset.
    pub open spec fn min_balance_of(self, id: u32) -> u128 {
        if self.assets.contains_key(id) {
            self.assets[id].min_balance
        } else {
            0
        }
    }

    /// An account's balance of an asset; zero when either is unknown.
    pub open spec fn balance_of(self, id: u32, who: u64) -> u128 {
        if self.assets.contains_key(id) {
            lookup_or_zero(self.assets[id].balances, who)
        } else {
            0
        }
    }

    /// What `create` returns.
    pub open spec fn create_result(self, id: u32) -> Result<(), TokenError> {
        if self.asset_exists(id) {
            Err(TokenError::InUse)
        } else {
            Ok(())
        }
    }

    /// The state after a successful `create`.
    pub open spec fn create_update(self, id: u32, min_balance: u128) -> LedgerView {
        LedgerView {
            assets: self.assets.insert(
                id,
                AssetView { min_balance, issuance: 0, balances: Map::empty() },
            ),
            ..self
        }
    }

    /// What `mint_into` returns.
    pub open spec fn mint_result(self, id: u32, who: u64, amount: u128) -> Result<
        (),
        TokenError,
    > {
        if !self.asset_exists(id) {
            Err(TokenError::UnknownAsset)
        } else if self.issuance_of(id) + amount > u128::MAX {
            Err(TokenError::Overflow)
        } else if self.balance_of(id, who) + amount > u128::MAX {
            Err(TokenError::Overflow)
        } else {
            Ok(())
        }
    }

    /// The state after a successful `mint_into`: the account's balance and
    /// the issuance both grow by exactly the minted amount.
    pub open spec fn mint_update(self, id: u32, who: u64, amount: u128) -> LedgerView {
        let a = self.assets[id];
        LedgerView {
            assets: self.assets.insert(
                id,
                AssetView {
                    min_balance: a.min_balance,
                    issuance: (a.issuance + amount) as u128,
                    balances: a.balances.insert(
                        who,
                        (lookup_or_zero(a.balances, who) + amount) as u128,
                    ),
                },
            ),
            ..self
        }
    }

    /// What `burn_from` returns: burning more than the account holds fails
    /// with `FundsUnavailable` and burns nothing.
    pub open spec fn burn_result(self, id: u32, who: u64, amount: u128) -> Result<
        (),
        TokenError,
    > {
        if !self.asset_exists(id) {
            Err(TokenError::UnknownAsset)
        } else if self.balance_of(id, who) < amount {
            Err(TokenError::FundsUnavailable)
        } else if self.issuance_of(id) < amount {
            Err(TokenError::Overflow)
        } else {
            Ok(())
        }
    }

    /// The state after a successful `burn_from`: the account's balance and
    /// the issuance both shrink by exactly the burned amount.
    pub open spec fn burn_update(self, id: u32, who: u64, amount: u128) -> LedgerView {
        let a = self.assets[id];
        LedgerView {
            assets: self.assets.insert(
                id,
                AssetView {
                    min_balance: a.min_balance,
                    issuance: (a.issuance - amount) as u128,
                    balances: a.balances.insert(
                        who,
                        (lookup_or_zero(a.balances, who) - amount) as u128,
                    ),
                },
            ),
            ..self
        }
    }

    /// What `transfer` returns: it fails when the payer lacks funds, and,
    /// with `keep_alive`, when the payer would be left below the asset's
    /// minimum balance.
    pub open spec fn transfer_result(
        self,
        id: u32,
        from: u64,
        to: u64,
        amount: u128,
        keep_alive: bool,
    ) -> Result<(), TokenError> {
        if !self.asset_exists(id) {
            Err(TokenError::UnknownAsset)
        } else if self.balance_of(id, from) < amount {
            Err(TokenError::FundsUnavailable)
        } else if keep_alive && self.balance_of(id, from) - amount < self.min_balance_of(id) {
            Err(TokenError::FundsUnavailable)
        } else if from != to && self.balance_of(id, to) + amount > u128::MAX {
            Err(TokenError::Overflow)
        } else {
            Ok(())
        }
    }

    /// The state after a successful `transfer`: value moves from payer to
    /// payee, every other balance is unchanged, and issuance is unchanged.
    pub open spec fn transfer_update(self, id: u32, from: u64, to: u64, amount: u128) -> LedgerView {
        if from == to {
            self
        } else {
            let a = self.assets[id];
            LedgerView {
                assets: self.assets.insert(
                    id,
                    AssetView {
                        min_balance: a.min_balance,
                        issuance: a.issuance,
                        balances: a.balances.insert(
                            from,
                            (lookup_or_zero(a.balances, from) - amount) as u128,
                        ).insert(to, (lookup_or_zero(a.balances, to) + amount) as u128),
                    },
                ),
                ..self
            }
        }
    }

    /// What `native_transfer` returns, mirroring `transfer_result` on the
    /// native currency.
    pub open spec fn native_transfer_result(
        self,
        from: u64,
        to: u64,
        amount: u128,
        keep_alive: bool,
    ) -> Result<(), TokenError> {
        if self.native_of(from) < amount {
            Err(TokenError::FundsUnavailable)
        } else if keep_alive && self.native_of(from) - amount < self.native_min_balance {
            Err(TokenError::FundsUnavailable)
        } else if from != to && self.native_of(to) + amount > u128::MAX {
            Err(TokenError::Overflow)
        } else {
            Ok(())
        }
    }

    /// The state after a successful `native_transfer`.
    pub open spec fn native_transfer_update(self, from: u64, to: u64, amount: u128) -> LedgerView {
        if from == to {
            self
        } else {
            LedgerView {
                native: self.native.insert(from, (self.native_of(from) - amount) as u128).insert(
                    to,
                    (self.native_of(to) + amount) as u128,
                ),
                ..self
            }
        }
    }

    /// The state after forcing an account's native balance.
    pub open spec fn set_native_update(self, who: u64, amount: u128) -> LedgerView {
        LedgerView { native: self.native.insert(who, amount), ..self }
    }
}

impl View for Ledger {
    type V = LedgerView;

    open spec fn view(&self) -> LedgerView {
        LedgerView {
            native_min_balance: self.native_min_balance,
            native: map_of(self.native@),
            assets: map_of(assets_entries(self.assets@)),
        }
    }
}

/// Balance lists keep account keys unique; the asset list keeps asset
/// identifiers unique.
impl Ledger {
    pub open spec fn wf(&self) -> bool {
        &&& unique_keys(self.native@)
        &&& unique_keys(assets_entries(self.assets@))
        &&& forall|i: int|
            0 <= i < self.assets@.len() ==> unique_keys(#[trigger] self.assets@[i].balances@)
    }

    /// An empty ledger with the given native minimum balance.
    pub fn new(native_min_balance: u128) -> (r: Ledger)
        ensures
            r.wf(),
            r@ == (LedgerView {
                native_min_balance,
                native: Map::<u64, u128>::empty(),
                assets: Map::<u32, AssetView>::empty(),
            }),
    {
        let l = Ledger { native_min_balance, native: Vec::new(), assets: Vec::new() };
        proof {
            assert(assets_entries(l.assets@) =~= Seq::<(u32, AssetView)>::empty());
        }
        l
    }
}

/// The value beside a key in a balance list, or zero.
#[verifier::loop_isolation(false)]
fn entry_get(v: &Vec<(u64, u128)>, who: u64) -> (r: u128)
    requires
        unique_keys(v@),
    ensures
        r == lookup_or_zero(map_of(v@), who),
{
    proof {
        lemma_map_of_contains(v@, who);
    }
    let n = v.len();
    let mut i: usize = 0;
    while i < n
        invariant
            n == v@.len(),
            0 <= i <= n,
            forall|j: int| 0 <= j < i ==> v@[j].0 != who,
        decreases n - i,
    {
        if v[i].0 == who {
            proof {
                lemma_map_of_index(v@, i as int);
            }
            return v[i].1;
        }
        i += 1;
    }
    0
}

/// Set the value beside a key in a balance list, inserting the key if it
/// is absent.
#[verifier::loop_isolation(false)]
fn entry_set(v: &mut Vec<(u64, u128)>, who: u64, amount: u128)
    requires
        unique_keys(old(v)@),
    ensures
        unique_keys(final(v)@),
        map_of(final(v)@) == map_of(old(v)@).insert(who, amount),
{
    let ghost pre = v@;
    let n = v.len();
    let mut i: usize = 0;
    while i < n
        invariant
            v@ == pre,
            n == v@.len(),
            0 <= i <= n,
            forall|j: int| 0 <= j < i ==> v@[j].0 != who,
        decreases n - i,
    {
        if v[i].0 == who {
            proof {
                lemma_map_of_update(pre, i as int, amount);
            }
            let slot = &mut v[i];
            *slot = (who, amount);
            proof {
                assert(v@ =~= pre.update(i as int, (pre[i as int].0, amount)));
                assert forall|x: int, y: int| 0 <= x < y < v@.len() implies v@[x].0 != v@[y].0 by {
                    assert(pre[x].0 != pre[y].0);
                }
            }
            return ;
        }
        i += 1;
    }
    proof {
        lemma_map_of_push(pre, who, amount);
    }
    v.push((who, amount));
    proof {
        assert(v@ == pre.push((who, amount)));
        assert forall|x: int, y: int| 0 <= x < y < v@.len() implies v@[x].0 != v@[y].0 by {
            if y < pre.len() {
                assert(pre[x].0 != pre[y].0);
            } else {
                assert(v@[x] == pre[x]);
            }
        }
    }
}

impl Ledger {
    /// The index of an asset record, when the asset exists.
    #[verifier::loop_isolation(false)]
    fn find_asset(&self, id: u32) -> (r: Option<usize>)
        requires
            self.wf(),
        ensures
            match r {
                Some(i) => i < self.assets@.len() && self.assets@[i as int].id == id
                    && self@.asset_exists(id) && self@.assets[id] == asset_view(
                    self.assets@[i as int],
                ),
                None => !self@.asset_exists(id),
            },
    {
        proof {
            lemma_map_of_contains(assets_entries(self.assets@), id);
        }
        let n = self.assets.len();
        let mut i: usize = 0;
        while i < n
            invariant
                n == self.assets@.len(),
                0 <= i <= n,
                forall|j: int| 0 <= j < i ==> self.assets@[j].id != id,
            decreases n - i,
        {
            if self.assets[i].id == id {
                proof {
                    assert(assets_entries(self.assets@)[i as int] == (
                        id,
                        asset_view(self.assets@[i as int]),
                    ));
                    lemma_map_of_index(assets_entries(self.assets@), i as int);
                }
                return Some(i);
            }
            i += 1;
        }
        proof {
            assert forall|j: int| 0 <= j < assets_entries(self.assets@).len() implies assets_entries(
                self.assets@,
            )[j].0 != id by {
                assert(assets_entries(self.assets@)[j] == (
                    self.assets@[j].id,
                    asset_view(self.assets@[j]),
                ));
            }
        }
        None
    }

    /// Replace one asset's issuance and one of its balances; the keyed map
    /// of every other asset is untouched.
    fn asset_set_balance(&mut self, i: usize, who: u64, amount: u128, issuance: u128)
        requires
            old(self).wf(),
            i < old(self).assets@.len(),
        ensures
            final(self).wf(),
            final(self).assets@.len() == old(self).assets@.len(),
            final(self).assets@[i as int].id == old(self).assets@[i as int].id,
            final(self).assets@[i as int].min_balance == old(self).assets@[i as int].min_balance,
            final(self).assets@[i as int].issuance == issuance,
            map_of(final(self).assets@[i as int].balances@) == map_of(
                old(self).assets@[i as int].balances@,
            ).insert(who, amount),
            final(self)@ == (LedgerView {
                assets: old(self)@.assets.insert(
                    old(self).assets@[i as int].id,
                    AssetView {
                        min_balance: old(self).assets@[i as int].min_balance,
                        issuance,
                        balances: map_of(old(self).assets@[i as int].balances@).insert(
                            who,
                            amount,
                        ),
                    },
                ),
                ..old(self)@
            }),
    {
        let ghost pre = self.assets@;
        let ghost aid = pre[i as int].id;
        proof {
            lemma_map_of_update(
                assets_entries(pre),
                i as int,
                AssetView {
                    min_balance: pre[i as int].min_balance,
                    issuance,
                    balances: map_of(pre[i as int].balances@).insert(who, amount),
                },
            );
        }
        let rec = &mut self.assets[i];
        rec.issuance = issuance;
        entry_set(&mut rec.balances, who, amount);
        proof {
            let cur = self.assets@;
            assert(cur == pre.update(i as int, cur[i as int]));
            assert(cur[i as int].id == aid);
            assert(cur[i as int].min_balance == pre[i as int].min_balance);
            assert(cur[i as int].issuance == issuance);
            assert(map_of(cur[i as int].balances@) == map_of(pre[i as int].balances@).insert(
                who,
                amount,
            ));
            assert(assets_entries(cur) =~= assets_entries(pre).update(
                i as int,
                (aid, asset_view(cur[i as int])),
            ));
            assert(asset_view(cur[i as int]) == (AssetView {
                min_balance: pre[i as int].min_balance,
                issuance,
                balances: map_of(pre[i as int].balances@).insert(who, amount),
            }));
            assert(assets_entries(pre)[i as int].0 == aid);
            assert forall|x: int, y: int|
                0 <= x < y < assets_entries(cur).len() implies assets_entries(cur)[x].0
                != assets_entries(cur)[y].0 by {
                assert(assets_entries(pre)[x].0 != assets_entries(pre)[y].0);
                assert(assets_entries(cur)[x].0 == assets_entries(pre)[x].0);
                assert(assets_entries(cur)[y].0 == assets_entries(pre)[y].0);
            }
            assert forall|j: int| 0 <= j < cur.len() implies unique_keys(
                #[trigger] cur[j].balances@,
            ) by {
                if j != i {
                    assert(cur[j] == pre[j]);
                }
            }
        }
    }

    /// Whether an asset with this identifier exists.
    /// Mirrors the existence check of the external ledger interface.
    pub fn asset_exists(&self, id: u32) -> (r: bool)
        requires
            self.wf(),
        ensures
            r == self@.asset_exists(id),
    {
        match self.find_asset(id) {
            Some(_) => true,
            None => false,
        }
    }

    /// Total issuance of an asset; zero for an unknown asset.
    pub fn total_issuance(&self, id: u32) -> (r: u128)
        requires
            self.wf(),
        ensures
            r == self@.issuance_of(id),
    {
        match self.find_asset(id) {
            Some(i) => self.assets[i].issuance,
            None => 0,
        }
    }

    /// The minimum balance an asset was created with.
    pub fn minimum_balance(&self, id: u32) -> (r: u128)
        requires
            self.wf(),
        ensures
            r == self@.min_balance_of(id),
    {
        match self.find_asset(id) {
            Some(i) => self.assets[i].min_balance,
            None => 0,
        }
    }

    /// An account's balance of an asset. Nothing in this ledger holds or
    /// freezes balances, so the whole balance is reducible.
    pub fn reducible_balance(&self, id: u32, who: u64) -> (r: u128)
        requires
            self.wf(),
        ensures
            r == self@.balance_of(id, who),
    {
        match self.find_asset(id) {
            Some(i) => entry_get(&self.assets[i].balances, who),
            None => 0,
        }
    }

    /// An account's native balance.
    pub fn native_balance(&self, who: u64) -> (r: u128)
        requires
            self.wf(),
        ensures
            r == self@.native_of(who),
    {
        entry_get(&self.native, who)
    }

    /// Force an account's native balance to a value, as a test or genesis
    /// configuration would.
    pub fn force_set_native_balance(&mut self, who: u64, amount: u128)
        requires
            old(self).wf(),
        ensures
            final(self).wf(),
            final(self)@ == old(self)@.set_native_update(who, amount),
    {
        entry_set(&mut self.native, who, amount);
    }

    /// Create a new asset with a minimum-balance floor; `InUse` exactly
    /// when the identifier is taken.
    pub fn create(&mut self, id: u32, min_balance: u128) -> (r: Result<(), TokenError>)
        requires
            old(self).wf(),
        ensures
            final(self).wf(),
            r == old(self)@.create_result(id),
            final(self)@ == (if r is Ok {
                old(self)@.create_update(id, min_balance)
            } else {
                old(self)@
            }),
    {
        if self.asset_exists(id) {
            return Err(TokenError::InUse);
        }
        let ghost pre = self.assets@;
        proof {
            lemma_map_of_push(
                assets_entries(pre),
                id,
                AssetView { min_balance, issuance: 0, balances: Map::empty() },
            );
            lemma_map_of_contains(assets_entries(pre), id);
        }
        self.assets.push(AssetRecord { id, min_balance, issuance: 0, balances: Vec::new() });
        proof {
            let cur = self.assets@;
            assert(cur.len() == pre.len() + 1);
            assert(cur[cur.len() - 1].id == id);
            assert(asset_view(cur[cur.len() - 1]) == (AssetView {
                min_balance,
                issuance: 0,
                balances: Map::<u64, u128>::empty(),
            })) by {
                assert(cur[cur.len() - 1].balances@ =~= Seq::<(u64, u128)>::empty());
            }
            assert(assets_entries(cur) =~= assets_entries(pre).push(
                (id, asset_view(cur[cur.len() - 1])),
            ));
            assert forall|x: int, y: int|
                0 <= x < y < assets_entries(cur).len() implies assets_entries(cur)[x].0
                != assets_entries(cur)[y].0 by {
                if y < pre.len() {
                    assert(assets_entries(pre)[x].0 != assets_entries(pre)[y].0);
                } else {
                    assert(assets_entries(cur)[y].0 == id);
                    assert(assets_entries(cur)[x].0 == assets_entries(pre)[x].0);
                    assert(assets_entries(pre)[x].0 == pre[x].id);
                }
            }
            assert forall|j: int| 0 <= j < cur.len() implies unique_keys(
                #[trigger] cur[j].balances@,
            ) by {
                if j < pre.len() {
                    assert(cur[j] == pre[j]);
                }
            }
        }
        Ok(())
    }

    /// Mint new units of an asset into an account: its balance and the
    /// asset's issuance both grow by exactly `amount`.
    pub fn mint_into(&mut self, id: u32, who: u64, amount: u128) -> (r: Result<(), TokenError>)
        requires
            old(self).wf(),
        ensures
            final(self).wf(),
            r == old(self)@.mint_result(id, who, amount),
            final(self)@ == (if r is Ok {
                old(self)@.mint_update(id, who, amount)
            } else {
                old(self)@
            }),
    {
        let i = match self.find_asset(id) {
            None => {
                return Err(TokenError::UnknownAsset);
            },
            Some(i) => i,
        };
        let new_issuance = match self.assets[i].issuance.checked_add(amount) {
            None => {
                return Err(TokenError::Overflow);
            },
            Some(v) => v,
        };
        let bal = entry_get(&self.assets[i].balances, who);
        let new_bal = match bal.checked_add(amount) {
            None => {
                return Err(TokenError::Overflow);
            },
            Some(v) => v,
        };
        self.asset_set_balance(i, who, new_bal, new_issuance);
        Ok(())
    }

    /// Burn units of an asset from an account; burning more than the
    /// account holds fails with `FundsUnavailable` and burns nothing.
    pub fn burn_from(&mut self, id: u32, who: u64, amount: u128) -> (r: Result<(), TokenError>)
        requires
            old(self).wf(),
        ensures
            final(self).wf(),
            r == old(self)@.burn_result(id, who, amount),
            final(self)@ == (if r is Ok {
                old(self)@.burn_update(id, who, amount)
            } else {
                old(self)@
            }),
    {
        let i = match self.find_asset(id) {
            None => {
                return Err(TokenError::UnknownAsset);
            },
            Some(i) => i,
        };
        let bal = entry_get(&self.assets[i].balances, who);
        if bal < amount {
            return Err(TokenError::FundsUnavailable);
        }
        let new_issuance = match self.assets[i].issuance.checked_sub(amount) {
            None => {
                return Err(TokenError::Overflow);
            },
            Some(v) => v,
        };
        self.asset_set_balance(i, who, bal - amount, new_issuance);
        Ok(())
    }

    /// Move `amount` of an asset from `from` to `to`. Issuance is
    /// unchanged and no other balance moves: what the payer loses the
    /// payee gains. With `keep_alive`, the payer must keep the asset's
    /// minimum balance.
    pub fn transfer(
        &mut self,
        id: u32,
        from: u64,
        to: u64,
        amount: u128,
        keep_alive: bool,
    ) -> (r: Result<(), TokenError>)
        requires
            old(self).wf(),
        ensures
            final(self).wf(),
            r == old(self)@.transfer_result(id, from, to, amount, keep_alive),
            final(self)@ == (if r is Ok {
                old(self)@.transfer_update(id, from, to, amount)
            } else {
                old(self)@
            }),
    {
        let i = match self.find_asset(id) {
            None => {
                return Err(TokenError::UnknownAsset);
            },
            Some(i) => i,
        };
        let from_bal = entry_get(&self.assets[i].balances, from);
        if from_bal < amount {
            return Err(TokenError::FundsUnavailable);
        }
        if keep_alive && from_bal - amount < self.assets[i].min_balance {
            return Err(TokenError::FundsUnavailable);
        }
        if from == to {
            return Ok(());
        }
        let to_bal = entry_get(&self.assets[i].balances, to);
        let new_to = match to_bal.checked_add(amount) {
            None => {
                return Err(TokenError::Overflow);
            },
            Some(v) => v,
        };
        let issuance = self.assets[i].issuance;
        let ghost a = old(self)@.assets[id];
        let ghost mid = a.balances.insert(from, (from_bal - amount) as u128);
        proof {
            assert(map_of(self.assets@[i as int].balances@) == a.balances);
            assert(self.assets@[i as int].min_balance == a.min_balance);
            assert(issuance == a.issuance);
        }
        self.asset_set_balance(i, from, from_bal - amount, issuance);
        proof {
            assert(self.assets@[i as int].id == id);
            assert(map_of(self.assets@[i as int].balances@) == mid);
            assert(self.assets@[i as int].min_balance == a.min_balance);
        }
        self.asset_set_balance(i, to, new_to, issuance);
        proof {
            let want = old(self)@.transfer_update(id, from, to, amount);
            assert(self@.assets =~= want.assets) by {
                assert(self@.assets == old(self)@.assets.insert(
                    id,
                    AssetView { min_balance: a.min_balance, issuance, balances: mid },
                ).insert(
                    id,
                    AssetView {
                        min_balance: a.min_balance,
                        issuance,
                        balances: mid.insert(to, new_to),
                    },
                ));
            }
            assert(self@.native == want.native);
            assert(self@ == want);
        }
        Ok(())
    }

    /// Move native currency between accounts, mirroring `transfer`.
    pub fn native_transfer(&mut self, from: u64, to: u64, amount: u128, keep_alive: bool) -> (r:
        Result<(), TokenError>)
        requires
            old(self).wf(),
        ensures
            final(self).wf(),
            r == old(self)@.native_transfer_result(from, to, amount, keep_alive),
            final(self)@ == (if r is Ok {
                old(self)@.native_transfer_update(from, to, amount)
            } else {
                old(self)@
            }),
    {
        let from_bal = entry_get(&self.native, from);
        if from_bal < amount {
            return Err(TokenError::FundsUnavailable);
        }
        if keep_alive && from_bal - amount < self.native_min_balance {
            return Err(TokenError::FundsUnavailable);
        }
        if from == to {
            return Ok(());
        }
        let to_bal = entry_get(&self.native, to);
        let new_to = match to_bal.checked_add(amount) {
            None => {
                return Err(TokenError::Overflow);
            },
            Some(v) => v,
        };
        entry_set(&mut self.native, from, from_bal - amount);
        entry_set(&mut self.native, to, new_to);
        Ok(())
    }

    /// The identifiers of every created asset, in creation order.
    #[verifier::loop_isolation(false)]
    pub fn asset_ids(&self) -> (r: Vec<u32>)
        requires
            self.wf(),
        ensures
            r@.len() == self.assets@.len(),
            forall|i: int| 0 <= i < r@.len() ==> r@[i] == self.assets@[i].id && self@.asset_exists(
                r@[i],
            ),
            forall|id: u32| self@.asset_exists(id) ==> r@.contains(id),
    {
        let n = self.assets.len();
        let mut r: Vec<u32> = Vec::new();
        let mut i: usize = 0;
        while i < n
            invariant
                n == self.assets@.len(),
                0 <= i <= n,
                r@.len() == i,
                forall|j: int| 0 <= j < i ==> r@[j] == self.assets@[j].id,
            decreases n - i,
        {
            r.push(self.assets[i].id);
            i += 1;
        }
        proof {
            assert forall|j: int| 0 <= j < r@.len() implies self@.asset_exists(r@[j]) by {
                assert(assets_entries(self.assets@)[j] == (
                    self.assets@[j].id,
                    asset_view(self.assets@[j]),
                ));
                lemma_map_of_index(assets_entries(self.assets@), j);
            }
            assert forall|id: u32| self@.asset_exists(id) implies r@.contains(id) by {
                lemma_map_of_contains(assets_entries(self.assets@), id);
                let j = choose|j: int|
                    0 <= j < assets_entries(self.assets@).len() && assets_entries(
                        self.assets@,
                    )[j].0 == id;
                assert(assets_entries(self.assets@)[j] == (
                    self.assets@[j].id,
                    asset_view(self.assets@[j]),
                ));
                assert(r@[j] == id);
            }
        }
        r
    }

    /// An identical scratch copy, for operations that must either commit
    /// every ledger step or none.
    pub fn duplicate(&self) -> (r: Ledger)
        requires
            self.wf(),
        ensures
            r.wf(),
            r@ == self@,
    {
        let native = copy_entries(&self.native);
        let n = self.assets.len();
        let mut assets: Vec<AssetRecord> = Vec::new();
        let mut i: usize = 0;
        while i < n
            invariant
                n == self.assets@.len(),
                0 <= i <= n,
                assets@.len() == i,
                self.wf(),
                forall|j: int|
                    0 <= j < i ==> (#[trigger] assets@[j]).id == self.assets@[j].id && assets@[j].min_balance
                        == self.assets@[j].min_balance && assets@[j].issuance
                        == self.assets@[j].issuance && assets@[j].balances@
                        == self.assets@[j].balances@,
            decreases n - i,
        {
            let rec = AssetRecord {
                id: self.assets[i].id,
                min_balance: self.assets[i].min_balance,
                issuance: self.assets[i].issuance,
                balances: copy_entries(&self.assets[i].balances),
            };
            assets.push(rec);
            i += 1;
        }
        let r = Ledger { native_min_balance: self.native_min_balance, native, assets };
        proof {
            assert(assets_entries(r.assets@) =~= assets_entries(self.assets@));
            assert(r@ == self@);
        }
        r
    }
}

/// A copy of a balance list.
#[verifier::loop_isolation(false)]
fn copy_entries(v: &Vec<(u64, u128)>) -> (r: Vec<(u64, u128)>)
    ensures
        r@ == v@,
{
    let n = v.len();
    let mut r: Vec<(u64, u128)> = Vec::new();
    let mut i: usize = 0;
    while i < n
        invariant
            n == v@.len(),
            0 <= i <= n,
            r@.len() == i,
            forall|j: int| 0 <= j < i ==> r@[j] == v@[j],
        decreases n - i,
    {
        r.push(v[i]);
        i += 1;
    }
    proof {
        assert(r@ =~= v@);
    }
    r
}

} // verus!
