//! The bond registry and its two calls, `issue` and `redeem`.
//!
//! A bond series is keyed by its underlying asset and maturity. The forward
//! table maps the key to the series' bond token, the reverse table maps the
//! token back to the key; a series is listed exactly while some of its
//! tokens circulate.
use std::collections::HashMap;
use vstd::prelude::*;

use crate::account::{module_account, spec_module_account, PalletId};
use crate::fee::{fee_of, split_fee, FeeRate};
use crate::keys::{lemma_unpack_insert, lemma_unpack_remove, pair_key, unpack_view};
use crate::ledger::{
    deposit_spec, register_spec, transfer_spec, withdraw_spec, AssetKind, Ledger, LedgerError,
    LedgerModel,
};
use crate::{AccountId, AssetId, Balance, Moment};

verus! {

/// The deployment's fixed settings.
#[derive(Clone, Copy, Debug, PartialEq, Eq)]
pub struct Config {
    /// Identifier from which the custody account is derived.
    pub pallet_id: PalletId,
    /// The least time between issuing a new series and its maturity.
    pub min_maturity: Moment,
    /// The share of each issued amount that goes to the fee receiver.
    pub protocol_fee: FeeRate,
    /// Who receives the protocol fee.
    pub fee_receiver: AccountId,
}

impl Config {
    pub open spec fn wf(self) -> bool {
        self.protocol_fee.wf()
    }

    /// The account that holds the locked underlying assets.
    pub open spec fn custody(self) -> AccountId {
        spec_module_account(self.pallet_id)
    }
}

/// What a successful call reports.
#[derive(Clone, Copy, Debug, PartialEq, Eq)]
pub enum Event {
    /// A bond token was registered for a new series.
    BondTokenCreated { issuer: AccountId, asset_id: AssetId, bond_id: AssetId, maturity: Moment },
    /// Bonds were issued.
    BondsIssued { issuer: AccountId, bond_id: AssetId, amount: Balance, fee: Balance },
    /// Bonds were redeemed.
    BondsRedeemed { who: AccountId, bond_id: AssetId, amount: Balance },
}

/// Why a call failed.
#[derive(Clone, Copy, Debug, PartialEq, Eq)]
pub enum Error {
    /// The token is not a listed bond.
    BondNotRegistered,
    /// The bond has not matured yet.
    BondNotMature,
    /// The maturity is closer than the configured minimum.
    InvalidMaturity,
    /// The ledger refused a transfer, mint, burn or registration.
    Ledger(LedgerError),
}

/// The two tables of listed series.
pub struct RegistryModel {
    /// (underlying asset, maturity) to bond token.
    pub bond_ids: Map<(AssetId, Moment), AssetId>,
    /// Bond token to (underlying asset, maturity).
    pub bonds: Map<AssetId, (AssetId, Moment)>,
}

impl RegistryModel {
    /// A key maps to a token exactly when that token maps back to the key.
    pub open spec fn bijective(self) -> bool {
        &&& forall|k: (AssetId, Moment)| #[trigger]
            self.bond_ids.contains_key(k) ==> self.bonds.contains_key(self.bond_ids[k])
                && self.bonds[self.bond_ids[k]] == k
        &&& forall|b: AssetId| #[trigger]
            self.bonds.contains_key(b) ==> self.bond_ids.contains_key(self.bonds[b])
                && self.bond_ids[self.bonds[b]] == b
    }

    pub open spec fn wf(self) -> bool {
        self.bijective() && self.bonds.dom().finite()
    }

    /// Every listed token is an asset of `led`.
    pub open spec fn listed_in(self, led: LedgerModel) -> bool {
        forall|b: AssetId| #[trigger] self.bonds.contains_key(b) ==> led.is_registered(b)
    }

    pub open spec fn with_series(self, key: (AssetId, Moment), bond_id: AssetId) -> RegistryModel {
        RegistryModel {
            bond_ids: self.bond_ids.insert(key, bond_id),
            bonds: self.bonds.insert(bond_id, key),
        }
    }

    pub open spec fn without_series(self, key: (AssetId, Moment), bond_id: AssetId) -> RegistryModel {
        RegistryModel { bond_ids: self.bond_ids.remove(key), bonds: self.bonds.remove(bond_id) }
    }
}

/// The ledger moves of an issuance: the net amount into custody, the fee
/// to the fee receiver, and the net amount of bonds minted to the issuer.
pub open spec fn issue_moves(
    cfg: Config,
    led: LedgerModel,
    who: AccountId,
    asset_id: AssetId,
    bond_id: AssetId,
    fee: Balance,
    net: Balance,
) -> Result<LedgerModel, LedgerError> {
    match transfer_spec(led, asset_id, who, cfg.custody(), net) {
        Err(e) => Err(e),
        Ok(l1) => match transfer_spec(l1, asset_id, who, cfg.fee_receiver, fee) {
            Err(e) => Err(e),
            Ok(l2) => deposit_spec(l2, bond_id, who, net),
        },
    }
}

/// The protocol fee taken from an issuance of `amount`.
pub open spec fn issue_fee(cfg: Config, amount: Balance) -> Balance {
    fee_of(cfg.protocol_fee, amount) as Balance
}

/// What remains of `amount` after the protocol fee.
pub open spec fn issue_net(cfg: Config, amount: Balance) -> Balance {
    (amount - issue_fee(cfg, amount)) as Balance
}

/// Whether a new series maturing at `maturity` may be opened at `now`.
pub open spec fn maturity_allowed(cfg: Config, maturity: Moment, now: Moment) -> bool {
    maturity >= now + cfg.min_maturity
}

/// The outcome of `issue`: the tables, the ledger and the events after it,
/// or the error.
pub open spec fn issue_spec(
    cfg: Config,
    reg: RegistryModel,
    led: LedgerModel,
    who: AccountId,
    asset_id: AssetId,
    amount: Balance,
    maturity: Moment,
    now: Moment,
) -> Result<(RegistryModel, LedgerModel, Seq<Event>), Error> {
    let fee = issue_fee(cfg, amount);
    let net = issue_net(cfg, amount);
    let key = (asset_id, maturity);
    if reg.bond_ids.contains_key(key) {
        let bond_id = reg.bond_ids[key];
        match issue_moves(cfg, led, who, asset_id, bond_id, fee, net) {
            Ok(l) => Ok((reg, l, seq![Event::BondsIssued { issuer: who, bond_id, amount: net, fee }])),
            Err(e) => Err(Error::Ledger(e)),
        }
    } else if !maturity_allowed(cfg, maturity, now) {
        Err(Error::InvalidMaturity)
    } else {
        match register_spec(led, AssetKind::Bond, led.existential_deposit(asset_id)) {
            Err(e) => Err(Error::Ledger(e)),
            Ok((l1, bond_id)) => match issue_moves(cfg, l1, who, asset_id, bond_id, fee, net) {
                Ok(l) => Ok(
                    (
                        reg.with_series(key, bond_id),
                        l,
                        seq![
                            Event::BondTokenCreated { issuer: who, asset_id, bond_id, maturity },
                            Event::BondsIssued { issuer: who, bond_id, amount: net, fee },
                        ],
                    ),
                ),
                Err(e) => Err(Error::Ledger(e)),
            },
        }
    }
}

/// The outcome of `redeem`: the tables, the ledger and the events after it,
/// or the error.
pub open spec fn redeem_spec(
    cfg: Config,
    reg: RegistryModel,
    led: LedgerModel,
    who: AccountId,
    bond_id: AssetId,
    amount: Balance,
    now: Moment,
) -> Result<(RegistryModel, LedgerModel, Seq<Event>), Error> {
    if !reg.bonds.contains_key(bond_id) {
        Err(Error::BondNotRegistered)
    } else if now < reg.bonds[bond_id].1 {
        Err(Error::BondNotMature)
    } else {
        let key = reg.bonds[bond_id];
        match withdraw_spec(led, bond_id, who, amount) {
            Err(e) => Err(Error::Ledger(e)),
            Ok(l1) => match transfer_spec(l1, key.0, cfg.custody(), who, amount) {
                Err(e) => Err(Error::Ledger(e)),
                Ok(l2) => Ok(
                    (
                        if l2.total_issuance(bond_id) == 0 {
                            reg.without_series(key, bond_id)
                        } else {
                            reg
                        },
                        l2,
                        seq![Event::BondsRedeemed { who, bond_id, amount }],
                    ),
                ),
            },
        }
    }
}

/// Listing a new series under a free key and an unused token keeps the
/// tables consistent.
pub proof fn lemma_listing_keeps_wf(reg: RegistryModel, key: (AssetId, Moment), bond_id: AssetId)
    requires
        reg.wf(),
        !reg.bond_ids.contains_key(key),
        !reg.bonds.contains_key(bond_id),
    ensures
        reg.with_series(key, bond_id).wf(),
{
    let r = reg.with_series(key, bond_id);
    assert forall|k: (AssetId, Moment)| #[trigger] r.bond_ids.contains_key(k) implies r.bonds.contains_key(
        r.bond_ids[k],
    ) && r.bonds[r.bond_ids[k]] == k by {
        if k != key {
            assert(reg.bond_ids.contains_key(k));
        }
    }
    assert forall|b: AssetId| #[trigger] r.bonds.contains_key(b) implies r.bond_ids.contains_key(
        r.bonds[b],
    ) && r.bond_ids[r.bonds[b]] == b by {
        if b != bond_id {
            assert(reg.bonds.contains_key(b));
        }
    }
}

/// Delisting a listed token together with its key keeps the tables
/// consistent.
pub proof fn lemma_delisting_keeps_wf(reg: RegistryModel, bond_id: AssetId)
    requires
        reg.wf(),
        reg.bonds.contains_key(bond_id),
    ensures
        reg.without_series(reg.bonds[bond_id], bond_id).wf(),
{
    let key = reg.bonds[bond_id];
    let r = reg.without_series(key, bond_id);
    assert forall|k: (AssetId, Moment)| #[trigger] r.bond_ids.contains_key(k) implies r.bonds.contains_key(
        r.bond_ids[k],
    ) && r.bonds[r.bond_ids[k]] == k by {
        assert(reg.bond_ids.contains_key(k));
    }
    assert forall|b: AssetId| #[trigger] r.bonds.contains_key(b) implies r.bond_ids.contains_key(
        r.bonds[b],
    ) && r.bond_ids[r.bonds[b]] == b by {
        assert(reg.bonds.contains_key(b));
    }
}

/// The bond registry with its settings.
pub struct Pallet {
    config: Config,
    bond_ids: HashMap<u128, AssetId>,
    bonds: HashMap<AssetId, (AssetId, Moment)>,
}

impl Pallet {
    pub closed spec fn config(&self) -> Config {
        self.config
    }

    pub closed spec fn registry(&self) -> RegistryModel {
        RegistryModel { bond_ids: unpack_view(self.bond_ids@), bonds: self.bonds@ }
    }

    pub open spec fn wf(&self) -> bool {
        self.config().wf() && self.registry().wf()
    }

    /// A registry with no series listed.
    pub fn new(config: Config) -> (r: Pallet)
        ensures
            r.wf(),
            r.config() == config,
            r.registry().bond_ids == Map::<(AssetId, Moment), AssetId>::empty(),
            r.registry().bonds == Map::<AssetId, (AssetId, Moment)>::empty(),
    {
        proof {
            use_type_invariant(&config.protocol_fee);
        }
        let r = Pallet { config, bond_ids: HashMap::new(), bonds: HashMap::new() };
        assert(r.registry().bond_ids =~= Map::<(AssetId, Moment), AssetId>::empty());
        r
    }

    /// The account that holds the locked underlying assets.
    pub fn pallet_account_id(&self) -> (r: AccountId)
        ensures
            r == self.config().custody(),
    {
        module_account(self.config.pallet_id)
    }

    /// The bond token of the series of `asset_id` maturing at `maturity`.
    pub fn bond_id(&self, asset_id: AssetId, maturity: Moment) -> (r: Option<AssetId>)
        ensures
            r == if self.registry().bond_ids.contains_key((asset_id, maturity)) {
                Some(self.registry().bond_ids[(asset_id, maturity)])
            } else {
                None::<AssetId>
            },
    {
        let k = pair_key(asset_id, maturity);
        match self.bond_ids.get(&k) {
            Some(b) => Some(*b),
            None => None,
        }
    }

    /// The underlying asset and maturity of bond token `bond_id`.
    pub fn bonds(&self, bond_id: AssetId) -> (r: Option<(AssetId, Moment)>)
        ensures
            r == if self.registry().bonds.contains_key(bond_id) {
                Some(self.registry().bonds[bond_id])
            } else {
                None::<(AssetId, Moment)>
            },
    {
        match self.bonds.get(&bond_id) {
            Some(v) => Some(*v),
            None => None,
        }
    }

    /// Issues bonds of the series of `asset_id` maturing at `maturity` to
    /// `who`, who pays `amount` of `asset_id`: the protocol fee (rounded up)
    /// goes to the fee receiver, the rest into custody, and as many bonds
    /// as the rest are minted to `who`. A series seen for the first time is
    /// listed under a newly registered bond token, provided its maturity is
    /// at least the configured minimum away from `now`. On any failure
    /// neither the tables nor the ledger change.
    pub fn issue(
        &mut self,
        ledger: &mut Ledger,
        who: AccountId,
        asset_id: AssetId,
        amount: Balance,
        maturity: Moment,
        now: Moment,
    ) -> (r: Result<Vec<Event>, Error>)
        requires
            old(self).wf(),
            old(ledger).wf(),
            old(self).registry().listed_in(old(ledger)@),
        ensures
            final(self).wf(),
            final(ledger).wf(),
            final(self).config() == old(self).config(),
            final(self).registry().listed_in(final(ledger)@),
            match issue_spec(
                old(self).config(),
                old(self).registry(),
                old(ledger)@,
                who,
                asset_id,
                amount,
                maturity,
                now,
            ) {
                Ok((reg, led, events)) => r is Ok && r->Ok_0@ == events && final(self).registry()
                    == reg && final(ledger)@ == led,
                Err(e) => r == Err::<Vec<Event>, Error>(e),
            },
            r is Err ==> final(self).registry() == old(self).registry() && final(ledger)@ == old(
                ledger,
            )@,
            !old(self).registry().bond_ids.contains_key((asset_id, maturity)) && !maturity_allowed(
                old(self).config(),
                maturity,
                now,
            ) ==> r == Err::<Vec<Event>, Error>(Error::InvalidMaturity),
    {
        let ghost reg0 = self.registry();
        let ghost led0 = ledger@;
        let (fee, net) = split_fee(self.config.protocol_fee, amount);
        let custody = self.pallet_account_id();
        let existing = self.bond_id(asset_id, maturity);
        let mut staged = ledger.snapshot();
        let bond_id = match existing {
            Some(b) => b,
            None => {
                if maturity < now || maturity - now < self.config.min_maturity {
                    return Err(Error::InvalidMaturity);
                }
                let ed = staged.existential_deposit(asset_id);
                match staged.register_asset(AssetKind::Bond, ed) {
                    Ok(id) => id,
                    Err(e) => {
                        return Err(Error::Ledger(e));
                    },
                }
            },
        };
        let ghost led1 = staged@;
        if let Err(e) = staged.transfer(asset_id, who, custody, net) {
            return Err(Error::Ledger(e));
        }
        if let Err(e) = staged.transfer(asset_id, who, self.config.fee_receiver, fee) {
            return Err(Error::Ledger(e));
        }
        if let Err(e) = staged.deposit(bond_id, who, net) {
            return Err(Error::Ledger(e));
        }
        assert(issue_moves(self.config(), led1, who, asset_id, bond_id, fee, net) == Ok::<
            LedgerModel,
            LedgerError,
        >(staged@));
        *ledger = staged;
        let mut events: Vec<Event> = Vec::new();
        if existing.is_none() {
            proof {
                assert(!reg0.bonds.contains_key(bond_id)) by {
                    if reg0.bonds.contains_key(bond_id) {
                        assert(led0.is_registered(bond_id));
                    }
                }
                lemma_listing_keeps_wf(reg0, (asset_id, maturity), bond_id);
            }
            self.list_series(asset_id, maturity, bond_id);
            events.push(Event::BondTokenCreated { issuer: who, asset_id, bond_id, maturity });
        }
        events.push(Event::BondsIssued { issuer: who, bond_id, amount: net, fee });
        proof {
            assert forall|b: AssetId| #[trigger]
                self.registry().bonds.contains_key(b) implies ledger@.is_registered(b) by {
                if b != bond_id {
                    assert(reg0.bonds.contains_key(b));
                    assert(led0.is_registered(b));
                }
            }
        }
        Ok(events)
    }

    /// Redeems `amount` bonds of token `bond_id` held by `who` for as much
    /// of the underlying asset out of custody, once the bond has matured at
    /// `now`. When no bonds of the token remain, its series is delisted. On
    /// any failure neither the tables nor the ledger change.
    pub fn redeem(
        &mut self,
        ledger: &mut Ledger,
        who: AccountId,
        bond_id: AssetId,
        amount: Balance,
        now: Moment,
    ) -> (r: Result<Vec<Event>, Error>)
        requires
            old(self).wf(),
            old(ledger).wf(),
            old(self).registry().listed_in(old(ledger)@),
        ensures
            final(self).wf(),
            final(ledger).wf(),
            final(self).config() == old(self).config(),
            final(self).registry().listed_in(final(ledger)@),
            match redeem_spec(
                old(self).config(),
                old(self).registry(),
                old(ledger)@,
                who,
                bond_id,
                amount,
                now,
            ) {
                Ok((reg, led, events)) => r is Ok && r->Ok_0@ == events && final(self).registry()
                    == reg && final(ledger)@ == led,
                Err(e) => r == Err::<Vec<Event>, Error>(e),
            },
            r is Err ==> final(self).registry() == old(self).registry() && final(ledger)@ == old(
                ledger,
            )@,
            old(self).registry().bonds.contains_key(bond_id) && now < old(
                self,
            ).registry().bonds[bond_id].1 ==> r == Err::<Vec<Event>, Error>(Error::BondNotMature),
            old(self).registry().bonds.contains_key(bond_id) && now >= old(
                self,
            ).registry().bonds[bond_id].1 ==> r is Ok || r->Err_0 is Ledger,
            !old(self).registry().bonds.contains_key(bond_id) ==> r == Err::<Vec<Event>, Error>(
                Error::BondNotRegistered,
            ),
    {
        let ghost reg0 = self.registry();
        let (underlying, maturity) = match self.bonds(bond_id) {
            Some(v) => v,
            None => {
                return Err(Error::BondNotRegistered);
            },
        };
        if now < maturity {
            return Err(Error::BondNotMature);
        }
        let custody = self.pallet_account_id();
        let mut staged = ledger.snapshot();
        if let Err(e) = staged.withdraw(bond_id, who, amount) {
            return Err(Error::Ledger(e));
        }
        if let Err(e) = staged.transfer(underlying, custody, who, amount) {
            return Err(Error::Ledger(e));
        }
        *ledger = staged;
        if ledger.total_issuance(bond_id) == 0 {
            proof {
                lemma_delisting_keeps_wf(reg0, bond_id);
            }
            self.delist_series(underlying, maturity, bond_id);
        }
        let events = vec![Event::BondsRedeemed { who, bond_id, amount }];
        proof {
            assert forall|b: AssetId| #[trigger]
                self.registry().bonds.contains_key(b) implies ledger@.is_registered(b) by {
                assert(reg0.bonds.contains_key(b));
            }
        }
        Ok(events)
    }

    fn list_series(&mut self, asset_id: AssetId, maturity: Moment, bond_id: AssetId)
        ensures
            final(self).config() == old(self).config(),
            final(self).registry() == old(self).registry().with_series(
                (asset_id, maturity),
                bond_id,
            ),
    {
        let k = pair_key(asset_id, maturity);
        proof {
            lemma_unpack_insert(self.bond_ids@, asset_id, maturity, bond_id);
        }
        self.bond_ids.insert(k, bond_id);
        self.bonds.insert(bond_id, (asset_id, maturity));
    }

    fn delist_series(&mut self, asset_id: AssetId, maturity: Moment, bond_id: AssetId)
        ensures
            final(self).config() == old(self).config(),
            final(self).registry() == old(self).registry().without_series(
                (asset_id, maturity),
                bond_id,
            ),
    {
        let k = pair_key(asset_id, maturity);
        proof {
            lemma_unpack_remove(self.bond_ids@, asset_id, maturity);
        }
        self.bond_ids.remove(&k);
        self.bonds.remove(&bond_id);
    }
}

} // verus!
