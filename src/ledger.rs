//! A multi-asset ledger: balances per asset and account, the total issuance
//! of each asset, and a registry of assets with their existential deposits.
//!
//! Each operation either succeeds with exactly the effect its model states,
//! or fails and leaves the ledger as it was.
use std::collections::HashMap;
use vstd::prelude::*;

use crate::keys::{lemma_unpack_insert, pair_key, unpack_view};
use crate::{AccountId, AssetId, Balance};

verus! {

/// What an asset is registered as.
#[derive(Clone, Copy, Debug, PartialEq, Eq)]
pub enum AssetKind {
    Token,
    Bond,
}

/// What the registry holds of an asset.
#[derive(Clone, Copy, Debug, PartialEq, Eq)]
pub struct AssetDetails {
    pub kind: AssetKind,
    /// The least nonzero balance an account may hold of the asset.
    pub existential_deposit: Balance,
}

/// Why a ledger operation failed.
#[derive(Clone, Copy, Debug, PartialEq, Eq)]
pub enum LedgerError {
    /// The asset was never registered.
    UnknownAsset,
    /// The account holds less than the amount asked for.
    BalanceTooLow,
    /// The receiving account would hold a nonzero balance below the
    /// asset's existential deposit.
    ExistentialDeposit,
    /// A balance or an issuance would exceed its range.
    Overflow,
    /// An issuance would drop below zero.
    Underflow,
    /// Every asset identifier has been handed out.
    NoAssetIdLeft,
}

/// The abstract state of a [`Ledger`].
pub struct LedgerModel {
    pub balances: Map<(AssetId, AccountId), Balance>,
    pub issuance: Map<AssetId, Balance>,
    pub assets: Map<AssetId, AssetDetails>,
    /// The identifier that the next registration hands out.
    pub next_asset_id: nat,
}

impl LedgerModel {
    pub open spec fn balance(self, asset: AssetId, who: AccountId) -> Balance {
        if self.balances.contains_key((asset, who)) {
            self.balances[(asset, who)]
        } else {
            0
        }
    }

    pub open spec fn total_issuance(self, asset: AssetId) -> Balance {
        if self.issuance.contains_key(asset) {
            self.issuance[asset]
        } else {
            0
        }
    }

    pub open spec fn is_registered(self, asset: AssetId) -> bool {
        self.assets.contains_key(asset)
    }

    pub open spec fn existential_deposit(self, asset: AssetId) -> Balance {
        if self.is_registered(asset) {
            self.assets[asset].existential_deposit
        } else {
            0
        }
    }

    pub open spec fn with_balance(self, asset: AssetId, who: AccountId, v: Balance) -> LedgerModel {
        LedgerModel { balances: self.balances.insert((asset, who), v), ..self }
    }

    pub open spec fn with_issuance(self, asset: AssetId, v: Balance) -> LedgerModel {
        LedgerModel { issuance: self.issuance.insert(asset, v), ..self }
    }

    /// No identifier from the next one on is registered or issued yet.
    pub open spec fn wf(self) -> bool {
        forall|a: AssetId|
            #![trigger self.is_registered(a)]
            a >= self.next_asset_id ==> (!self.is_registered(a) && self.total_issuance(a) == 0)
    }
}

/// Moving `amount` of `asset` from `from` to `to`. Nothing moves when the
/// amount is zero or both accounts are one.
pub open spec fn transfer_spec(
    m: LedgerModel,
    asset: AssetId,
    from: AccountId,
    to: AccountId,
    amount: Balance,
) -> Result<LedgerModel, LedgerError> {
    if amount == 0 || from == to {
        Ok(m)
    } else if !m.is_registered(asset) {
        Err(LedgerError::UnknownAsset)
    } else if m.balance(asset, from) < amount {
        Err(LedgerError::BalanceTooLow)
    } else if m.balance(asset, to) + amount > u128::MAX {
        Err(LedgerError::Overflow)
    } else if m.balance(asset, to) + amount < m.existential_deposit(asset) {
        Err(LedgerError::ExistentialDeposit)
    } else {
        Ok(
            m.with_balance(asset, from, (m.balance(asset, from) - amount) as Balance).with_balance(
                asset,
                to,
                (m.balance(asset, to) + amount) as Balance,
            ),
        )
    }
}

/// Minting `amount` of `asset` to `to`.
pub open spec fn deposit_spec(
    m: LedgerModel,
    asset: AssetId,
    to: AccountId,
    amount: Balance,
) -> Result<LedgerModel, LedgerError> {
    if amount == 0 {
        Ok(m)
    } else if !m.is_registered(asset) {
        Err(LedgerError::UnknownAsset)
    } else if m.total_issuance(asset) + amount > u128::MAX || m.balance(asset, to) + amount
        > u128::MAX {
        Err(LedgerError::Overflow)
    } else if m.balance(asset, to) + amount < m.existential_deposit(asset) {
        Err(LedgerError::ExistentialDeposit)
    } else {
        Ok(
            m.with_issuance(asset, (m.total_issuance(asset) + amount) as Balance).with_balance(
                asset,
                to,
                (m.balance(asset, to) + amount) as Balance,
            ),
        )
    }
}

/// Burning `amount` of `asset` from `from`.
pub open spec fn withdraw_spec(
    m: LedgerModel,
    asset: AssetId,
    from: AccountId,
    amount: Balance,
) -> Result<LedgerModel, LedgerError> {
    if amount == 0 {
        Ok(m)
    } else if !m.is_registered(asset) {
        Err(LedgerError::UnknownAsset)
    } else if m.balance(asset, from) < amount {
        Err(LedgerError::BalanceTooLow)
    } else if m.total_issuance(asset) < amount {
        Err(LedgerError::Underflow)
    } else {
        Ok(
            m.with_issuance(asset, (m.total_issuance(asset) - amount) as Balance).with_balance(
                asset,
                from,
                (m.balance(asset, from) - amount) as Balance,
            ),
        )
    }
}

/// Registering a new asset: it gets the next identifier.
pub open spec fn register_spec(m: LedgerModel, kind: AssetKind, existential_deposit: Balance) -> Result<
    (LedgerModel, AssetId),
    LedgerError,
> {
    if m.next_asset_id >= u32::MAX {
        Err(LedgerError::NoAssetIdLeft)
    } else {
        let id = m.next_asset_id as AssetId;
        Ok(
            (
                LedgerModel {
                    assets: m.assets.insert(id, AssetDetails { kind, existential_deposit }),
                    next_asset_id: m.next_asset_id + 1,
                    ..m
                },
                id,
            ),
        )
    }
}

pub proof fn lemma_transfer_keeps_wf(
    m: LedgerModel,
    asset: AssetId,
    from: AccountId,
    to: AccountId,
    amount: Balance,
)
    requires
        m.wf(),
        transfer_spec(m, asset, from, to, amount) is Ok,
    ensures
        transfer_spec(m, asset, from, to, amount)->Ok_0.wf(),
{
    let l = transfer_spec(m, asset, from, to, amount)->Ok_0;
    assert forall|a: AssetId| #![trigger l.is_registered(a)] a >= l.next_asset_id implies (!l.is_registered(a) && l.total_issuance(a) == 0) by {
        assert(!m.is_registered(a));
    }
}

pub proof fn lemma_deposit_keeps_wf(m: LedgerModel, asset: AssetId, to: AccountId, amount: Balance)
    requires
        m.wf(),
        deposit_spec(m, asset, to, amount) is Ok,
    ensures
        deposit_spec(m, asset, to, amount)->Ok_0.wf(),
{
    let l = deposit_spec(m, asset, to, amount)->Ok_0;
    assert forall|a: AssetId| #![trigger l.is_registered(a)] a >= l.next_asset_id implies (!l.is_registered(a) && l.total_issuance(a) == 0) by {
        assert(!m.is_registered(a));
    }
}

pub proof fn lemma_withdraw_keeps_wf(m: LedgerModel, asset: AssetId, from: AccountId, amount: Balance)
    requires
        m.wf(),
        withdraw_spec(m, asset, from, amount) is Ok,
    ensures
        withdraw_spec(m, asset, from, amount)->Ok_0.wf(),
{
    let l = withdraw_spec(m, asset, from, amount)->Ok_0;
    assert forall|a: AssetId| #![trigger l.is_registered(a)] a >= l.next_asset_id implies (!l.is_registered(a) && l.total_issuance(a) == 0) by {
        assert(!m.is_registered(a));
    }
}

pub proof fn lemma_register_keeps_wf(m: LedgerModel, kind: AssetKind, existential_deposit: Balance)
    requires
        m.wf(),
        register_spec(m, kind, existential_deposit) is Ok,
    ensures
        register_spec(m, kind, existential_deposit)->Ok_0.0.wf(),
{
    let l = register_spec(m, kind, existential_deposit)->Ok_0.0;
    assert forall|a: AssetId| #![trigger l.is_registered(a)] a >= l.next_asset_id implies (!l.is_registered(a) && l.total_issuance(a) == 0) by {
        assert(!m.is_registered(a));
    }
}

/// A multi-asset ledger.
pub struct Ledger {
    balances: HashMap<u128, Balance>,
    issuance: HashMap<AssetId, Balance>,
    assets: HashMap<AssetId, AssetDetails>,
    next_asset_id: AssetId,
}

impl View for Ledger {
    type V = LedgerModel;

    closed spec fn view(&self) -> LedgerModel {
        LedgerModel {
            balances: unpack_view(self.balances@),
            issuance: self.issuance@,
            assets: self.assets@,
            next_asset_id: self.next_asset_id as nat,
        }
    }
}

impl Ledger {
    pub open spec fn wf(&self) -> bool {
        self@.wf()
    }

    /// An empty ledger: no assets, no balances.
    pub fn new() -> (r: Ledger)
        ensures
            r.wf(),
            r@.balances == Map::<(AssetId, AccountId), Balance>::empty(),
            r@.issuance == Map::<AssetId, Balance>::empty(),
            r@.assets == Map::<AssetId, AssetDetails>::empty(),
            r@.next_asset_id == 0,
    {
        let r = Ledger {
            balances: HashMap::new(),
            issuance: HashMap::new(),
            assets: HashMap::new(),
            next_asset_id: 0,
        };
        assert(r@.balances =~= Map::<(AssetId, AccountId), Balance>::empty());
        r
    }

    /// A copy of this ledger, to stage changes on.
    pub fn snapshot(&self) -> (r: Ledger)
        ensures
            r@ == self@,
    {
        Ledger {
            balances: self.balances.clone(),
            issuance: self.issuance.clone(),
            assets: self.assets.clone(),
            next_asset_id: self.next_asset_id,
        }
    }

    pub fn balance(&self, asset: AssetId, who: AccountId) -> (r: Balance)
        ensures
            r == self@.balance(asset, who),
    {
        let k = pair_key(asset, who);
        match self.balances.get(&k) {
            Some(v) => *v,
            None => 0,
        }
    }

    pub fn total_issuance(&self, asset: AssetId) -> (r: Balance)
        ensures
            r == self@.total_issuance(asset),
    {
        match self.issuance.get(&asset) {
            Some(v) => *v,
            None => 0,
        }
    }

    pub fn asset_details(&self, asset: AssetId) -> (r: Option<AssetDetails>)
        ensures
            r == if self@.is_registered(asset) {
                Some(self@.assets[asset])
            } else {
                None::<AssetDetails>
            },
    {
        match self.assets.get(&asset) {
            Some(d) => Some(*d),
            None => None,
        }
    }

    /// The existential deposit of `asset`; zero for an unknown asset.
    pub fn existential_deposit(&self, asset: AssetId) -> (r: Balance)
        ensures
            r == self@.existential_deposit(asset),
    {
        match self.assets.get(&asset) {
            Some(d) => d.existential_deposit,
            None => 0,
        }
    }

    fn set_balance(&mut self, asset: AssetId, who: AccountId, v: Balance)
        ensures
            final(self)@ == old(self)@.with_balance(asset, who, v),
    {
        let k = pair_key(asset, who);
        proof {
            lemma_unpack_insert(self.balances@, asset, who, v);
        }
        self.balances.insert(k, v);
        assert(final(self)@.balances == old(self)@.balances.insert((asset, who), v));
        assert(final(self)@ =~= old(self)@.with_balance(asset, who, v));
    }

    fn set_issuance(&mut self, asset: AssetId, v: Balance)
        ensures
            final(self)@ == old(self)@.with_issuance(asset, v),
    {
        self.issuance.insert(asset, v);
        assert(final(self)@ =~= old(self)@.with_issuance(asset, v));
    }

    /// Registers a new asset of `kind` with the given existential deposit
    /// and returns its identifier.
    pub fn register_asset(&mut self, kind: AssetKind, existential_deposit: Balance) -> (r: Result<
        AssetId,
        LedgerError,
    >)
        requires
            old(self).wf(),
        ensures
            final(self).wf(),
            match register_spec(old(self)@, kind, existential_deposit) {
                Ok((m, id)) => r == Ok::<AssetId, LedgerError>(id) && final(self)@ == m,
                Err(e) => r == Err::<AssetId, LedgerError>(e) && final(self)@ == old(self)@,
            },
    {
        if self.next_asset_id == u32::MAX {
            return Err(LedgerError::NoAssetIdLeft);
        }
        let id = self.next_asset_id;
        self.assets.insert(id, AssetDetails { kind, existential_deposit });
        self.next_asset_id = id + 1;
        assert(final(self)@ =~= register_spec(old(self)@, kind, existential_deposit).unwrap().0);
        proof {
            assert forall|a: AssetId| #![trigger self@.is_registered(a)] a >= self@.next_asset_id implies (!self@.is_registered(a) && self@.total_issuance(a) == 0) by {
                assert(!old(self)@.is_registered(a));
            }
        }
        Ok(id)
    }

    /// Moves `amount` of `asset` from `from` to `to`.
    pub fn transfer(&mut self, asset: AssetId, from: AccountId, to: AccountId, amount: Balance) -> (r:
        Result<(), LedgerError>)
        requires
            old(self).wf(),
        ensures
            final(self).wf(),
            match transfer_spec(old(self)@, asset, from, to, amount) {
                Ok(m) => r is Ok && final(self)@ == m,
                Err(e) => r == Err::<(), LedgerError>(e) && final(self)@ == old(self)@,
            },
    {
        if amount == 0 || from == to {
            return Ok(());
        }
        if !self.assets.contains_key(&asset) {
            return Err(LedgerError::UnknownAsset);
        }
        let from_balance = self.balance(asset, from);
        let to_balance = self.balance(asset, to);
        if from_balance < amount {
            return Err(LedgerError::BalanceTooLow);
        }
        if to_balance > u128::MAX - amount {
            return Err(LedgerError::Overflow);
        }
        if to_balance + amount < self.existential_deposit(asset) {
            return Err(LedgerError::ExistentialDeposit);
        }
        self.set_balance(asset, from, from_balance - amount);
        self.set_balance(asset, to, to_balance + amount);
        proof {
            assert forall|a: AssetId| #![trigger self@.is_registered(a)] a >= self@.next_asset_id implies (!self@.is_registered(a) && self@.total_issuance(a) == 0) by {
                assert(!old(self)@.is_registered(a));
            }
        }
        Ok(())
    }

    /// Mints `amount` of `asset` to `to`.
    pub fn deposit(&mut self, asset: AssetId, to: AccountId, amount: Balance) -> (r: Result<
        (),
        LedgerError,
    >)
        requires
            old(self).wf(),
        ensures
            final(self).wf(),
            match deposit_spec(old(self)@, asset, to, amount) {
                Ok(m) => r is Ok && final(self)@ == m,
                Err(e) => r == Err::<(), LedgerError>(e) && final(self)@ == old(self)@,
            },
    {
        if amount == 0 {
            return Ok(());
        }
        if !self.assets.contains_key(&asset) {
            return Err(LedgerError::UnknownAsset);
        }
        let total = self.total_issuance(asset);
        let to_balance = self.balance(asset, to);
        if total > u128::MAX - amount || to_balance > u128::MAX - amount {
            return Err(LedgerError::Overflow);
        }
        if to_balance + amount < self.existential_deposit(asset) {
            return Err(LedgerError::ExistentialDeposit);
        }
        self.set_issuance(asset, total + amount);
        self.set_balance(asset, to, to_balance + amount);
        proof {
            assert forall|a: AssetId| #![trigger self@.is_registered(a)] a >= self@.next_asset_id implies (!self@.is_registered(a) && self@.total_issuance(a) == 0) by {
                assert(!old(self)@.is_registered(a));
            }
        }
        Ok(())
    }

    /// Burns `amount` of `asset` from `from`.
    pub fn withdraw(&mut self, asset: AssetId, from: AccountId, amount: Balance) -> (r: Result<
        (),
        LedgerError,
    >)
        requires
            old(self).wf(),
        ensures
            final(self).wf(),
            match withdraw_spec(old(self)@, asset, from, amount) {
                Ok(m) => r is Ok && final(self)@ == m,
                Err(e) => r == Err::<(), LedgerError>(e) && final(self)@ == old(self)@,
            },
    {
        if amount == 0 {
            return Ok(());
        }
        if !self.assets.contains_key(&asset) {
            return Err(LedgerError::UnknownAsset);
        }
        let total = self.total_issuance(asset);
        let from_balance = self.balance(asset, from);
        if from_balance < amount {
            return Err(LedgerError::BalanceTooLow);
        }
        if total < amount {
            return Err(LedgerError::Underflow);
        }
        self.set_issuance(asset, total - amount);
        self.set_balance(asset, from, from_balance - amount);
        proof {
            assert forall|a: AssetId| #![trigger self@.is_registered(a)] a >= self@.next_asset_id implies (!self@.is_registered(a) && self@.total_issuance(a) == 0) by {
                assert(!old(self)@.is_registered(a));
            }
        }
        Ok(())
    }
}

} // verus!
