//! What holds across calls: the two tables stay each other's inverse, the
//! custody account backs every outstanding bond, a series is reused while
//! listed, and a fully redeemed series is reopened under a new token.
use vstd::prelude::*;

use crate::ledger::{
    deposit_spec, lemma_deposit_keeps_wf, lemma_register_keeps_wf, lemma_transfer_keeps_wf,
    lemma_withdraw_keeps_wf, register_spec, transfer_spec, withdraw_spec, AssetKind, LedgerModel,
};
use crate::pallet::{
    issue_moves, issue_net, issue_spec, redeem_spec, Config, Event, RegistryModel,
};
use crate::{AccountId, AssetId, Balance, Moment};

verus! {

/// The sum of `f` over the finite set `s`.
pub open spec fn sum_over(s: Set<AssetId>, f: spec_fn(AssetId) -> int) -> int
    decreases s.len(),
    when s.finite()
{
    if s.len() == 0 {
        0
    } else {
        let x = s.choose();
        f(x) + sum_over(s.remove(x), f)
    }
}

pub proof fn lemma_sum_remove(s: Set<AssetId>, f: spec_fn(AssetId) -> int, x: AssetId)
    requires
        s.finite(),
        s.contains(x),
    ensures
        sum_over(s, f) == f(x) + sum_over(s.remove(x), f),
    decreases s.len(),
{
    assert(s.remove(x).len() == s.len() - 1);
    let y = s.choose();
    if y != x {
        lemma_sum_remove(s.remove(y), f, x);
        lemma_sum_remove(s.remove(x), f, y);
        assert(s.remove(y).remove(x) =~= s.remove(x).remove(y));
    }
}

pub proof fn lemma_sum_congruent(s: Set<AssetId>, f: spec_fn(AssetId) -> int, g: spec_fn(AssetId) -> int)
    requires
        s.finite(),
        forall|x: AssetId| s.contains(x) ==> f(x) == g(x),
    ensures
        sum_over(s, f) == sum_over(s, g),
    decreases s.len(),
{
    if s.len() != 0 {
        let x = s.choose();
        lemma_sum_congruent(s.remove(x), f, g);
    }
}

/// Changing `f` at one member `x` of `s` by `d` changes the sum by `d`.
pub proof fn lemma_sum_bump(
    s: Set<AssetId>,
    f: spec_fn(AssetId) -> int,
    g: spec_fn(AssetId) -> int,
    x: AssetId,
    d: int,
)
    requires
        s.finite(),
        s.contains(x),
        g(x) == f(x) + d,
        forall|y: AssetId| s.contains(y) && y != x ==> f(y) == g(y),
    ensures
        sum_over(s, g) == sum_over(s, f) + d,
{
    lemma_sum_remove(s, f, x);
    lemma_sum_remove(s, g, x);
    lemma_sum_congruent(s.remove(x), f, g);
}

/// The circulating amount of bond token `b` if `u` backs it, else zero.
pub open spec fn backed_by(reg: RegistryModel, led: LedgerModel, u: AssetId) -> spec_fn(AssetId) -> int {
    |b: AssetId|
        if reg.bonds[b].0 == u {
            led.total_issuance(b) as int
        } else {
            0
        }
}

/// How much of the bond tokens backed by underlying `u` circulates.
pub open spec fn outstanding(reg: RegistryModel, led: LedgerModel, u: AssetId) -> int {
    sum_over(reg.bonds.dom(), backed_by(reg, led, u))
}

/// The custody account holds at least as much of each underlying asset as
/// circulates of the bond tokens it backs.
pub open spec fn backed(cfg: Config, reg: RegistryModel, led: LedgerModel) -> bool {
    forall|u: AssetId| led.balance(u, cfg.custody()) >= #[trigger] outstanding(reg, led, u)
}

/// Everything that the two calls keep true.
pub open spec fn sound(cfg: Config, reg: RegistryModel, led: LedgerModel) -> bool {
    &&& cfg.wf()
    &&& reg.wf()
    &&& led.wf()
    &&& reg.listed_in(led)
    &&& backed(cfg, reg, led)
}

/// An empty registry is backed by any ledger.
pub proof fn lemma_empty_registry_backed(cfg: Config, led: LedgerModel)
    ensures
        backed(
            cfg,
            RegistryModel {
                bond_ids: Map::<(AssetId, Moment), AssetId>::empty(),
                bonds: Map::<AssetId, (AssetId, Moment)>::empty(),
            },
            led,
        ),
{
    let reg = RegistryModel {
        bond_ids: Map::<(AssetId, Moment), AssetId>::empty(),
        bonds: Map::<AssetId, (AssetId, Moment)>::empty(),
    };
    assert forall|u: AssetId| led.balance(u, cfg.custody()) >= #[trigger] outstanding(reg, led, u) by {
        assert(reg.bonds.dom() =~= Set::<AssetId>::empty());
    }
}

/// The ledger moves of an issuance leave the asset registry alone.
proof fn lemma_issue_moves_frame(
    cfg: Config,
    led: LedgerModel,
    who: AccountId,
    asset_id: AssetId,
    bond_id: AssetId,
    fee: Balance,
    net: Balance,
)
    requires
        issue_moves(cfg, led, who, asset_id, bond_id, fee, net) is Ok,
    ensures
        issue_moves(cfg, led, who, asset_id, bond_id, fee, net)->Ok_0.assets == led.assets,
        issue_moves(cfg, led, who, asset_id, bond_id, fee, net)->Ok_0.next_asset_id
            == led.next_asset_id,
{
}

/// The effect of the ledger moves of an issuance on the custody account
/// and on the issuance of each asset.
proof fn lemma_issue_moves_effect(
    cfg: Config,
    led: LedgerModel,
    who: AccountId,
    asset_id: AssetId,
    bond_id: AssetId,
    fee: Balance,
    net: Balance,
)
    requires
        who != cfg.custody(),
        issue_moves(cfg, led, who, asset_id, bond_id, fee, net) is Ok,
    ensures
        ({
            let l = issue_moves(cfg, led, who, asset_id, bond_id, fee, net)->Ok_0;
            &&& forall|a: AssetId| #[trigger]
                l.balance(a, cfg.custody()) >= led.balance(a, cfg.custody()) + if a == asset_id {
                    net as int
                } else {
                    0
                }
            &&& forall|a: AssetId| #[trigger]
                l.total_issuance(a) == led.total_issuance(a) + if a == bond_id {
                    net as int
                } else {
                    0
                }
        }),
{
    let l1 = transfer_spec(led, asset_id, who, cfg.custody(), net)->Ok_0;
    let l2 = transfer_spec(l1, asset_id, who, cfg.fee_receiver, fee)->Ok_0;
    let l = deposit_spec(l2, bond_id, who, net)->Ok_0;
    assert forall|a: AssetId| #[trigger]
        l.balance(a, cfg.custody()) >= led.balance(a, cfg.custody()) + if a == asset_id {
            net as int
        } else {
            0
        } by {
        assert(l1.balance(a, cfg.custody()) == led.balance(a, cfg.custody()) + if a == asset_id {
            net as int
        } else {
            0
        });
        assert(l2.balance(a, cfg.custody()) >= l1.balance(a, cfg.custody()));
    }
}

/// The ledger moves of an issuance keep the ledger well formed.
proof fn lemma_issue_moves_keep_wf(
    cfg: Config,
    led: LedgerModel,
    who: AccountId,
    asset_id: AssetId,
    bond_id: AssetId,
    fee: Balance,
    net: Balance,
)
    requires
        led.wf(),
        issue_moves(cfg, led, who, asset_id, bond_id, fee, net) is Ok,
    ensures
        issue_moves(cfg, led, who, asset_id, bond_id, fee, net)->Ok_0.wf(),
{
    let l1 = transfer_spec(led, asset_id, who, cfg.custody(), net)->Ok_0;
    let l2 = transfer_spec(l1, asset_id, who, cfg.fee_receiver, fee)->Ok_0;
    lemma_transfer_keeps_wf(led, asset_id, who, cfg.custody(), net);
    lemma_transfer_keeps_wf(l1, asset_id, who, cfg.fee_receiver, fee);
    lemma_deposit_keeps_wf(l2, bond_id, who, net);
}

/// Issuing keeps the tables each other's inverse.
pub proof fn lemma_issue_keeps_bijection(
    cfg: Config,
    reg: RegistryModel,
    led: LedgerModel,
    who: AccountId,
    asset_id: AssetId,
    amount: Balance,
    maturity: Moment,
    now: Moment,
)
    requires
        reg.wf(),
        led.wf(),
        reg.listed_in(led),
    ensures
        issue_spec(cfg, reg, led, who, asset_id, amount, maturity, now) is Ok ==> {
            let (reg2, led2, events) = issue_spec(
                cfg,
                reg,
                led,
                who,
                asset_id,
                amount,
                maturity,
                now,
            )->Ok_0;
            reg2.bijective() && reg2.listed_in(led2)
        },
{
    let key = (asset_id, maturity);
    let fee = crate::pallet::issue_fee(cfg, amount);
    let net = issue_net(cfg, amount);
    if issue_spec(cfg, reg, led, who, asset_id, amount, maturity, now) is Ok {
        let (reg2, led2, events) = issue_spec(
            cfg,
            reg,
            led,
            who,
            asset_id,
            amount,
            maturity,
            now,
        )->Ok_0;
        if reg.bond_ids.contains_key(key) {
            lemma_issue_moves_frame(cfg, led, who, asset_id, reg.bond_ids[key], fee, net);
            assert(reg2 == reg);
        } else {
            let (l1, nb) = register_spec(led, AssetKind::Bond, led.existential_deposit(asset_id))->Ok_0;
            lemma_issue_moves_frame(cfg, l1, who, asset_id, nb, fee, net);
            assert(!reg.bonds.contains_key(nb)) by {
                if reg.bonds.contains_key(nb) {
                    assert(led.is_registered(nb));
                }
            }
            crate::pallet::lemma_listing_keeps_wf(reg, key, nb);
            assert forall|b: AssetId| #[trigger] reg2.bonds.contains_key(b) implies led2.is_registered(b) by {
                if b != nb {
                    assert(reg.bonds.contains_key(b));
                }
            }
        }
    }
}

/// Issuing, by any account but the custody account, keeps every
/// outstanding bond backed (and everything else that the calls keep).
pub proof fn lemma_issue_keeps_backing(
    cfg: Config,
    reg: RegistryModel,
    led: LedgerModel,
    who: AccountId,
    asset_id: AssetId,
    amount: Balance,
    maturity: Moment,
    now: Moment,
)
    requires
        sound(cfg, reg, led),
        who != cfg.custody(),
    ensures
        issue_spec(cfg, reg, led, who, asset_id, amount, maturity, now) is Ok ==> {
            let (reg2, led2, events) = issue_spec(
                cfg,
                reg,
                led,
                who,
                asset_id,
                amount,
                maturity,
                now,
            )->Ok_0;
            sound(cfg, reg2, led2)
        },
{
    lemma_issue_keeps_bijection(cfg, reg, led, who, asset_id, amount, maturity, now);
    let key = (asset_id, maturity);
    let fee = crate::pallet::issue_fee(cfg, amount);
    let net = issue_net(cfg, amount);
    let custody = cfg.custody();
    if issue_spec(cfg, reg, led, who, asset_id, amount, maturity, now) is Ok {
        let (reg2, led2, events) = issue_spec(
            cfg,
            reg,
            led,
            who,
            asset_id,
            amount,
            maturity,
            now,
        )->Ok_0;
        if reg.bond_ids.contains_key(key) {
            let b = reg.bond_ids[key];
            lemma_issue_moves_effect(cfg, led, who, asset_id, b, fee, net);
            lemma_issue_moves_keep_wf(cfg, led, who, asset_id, b, fee, net);
            assert forall|x: AssetId|
                led2.balance(x, custody) >= #[trigger] outstanding(reg2, led2, x) by {
                let d = if asset_id == x {
                    net as int
                } else {
                    0
                };
                assert forall|c: AssetId| reg.bonds.contains_key(c) && c != b implies backed_by(
                    reg,
                    led,
                    x,
                )(c) == backed_by(reg, led2, x)(c) by {
                    assert(led2.total_issuance(c) == led.total_issuance(c));
                }
                assert(led2.total_issuance(b) == led.total_issuance(b) + net);
                lemma_sum_bump(reg.bonds.dom(), backed_by(reg, led, x), backed_by(reg, led2, x), b, d);
                assert(outstanding(reg, led, x) <= led.balance(x, custody));
            }
        } else {
            let (l1, nb) = register_spec(led, AssetKind::Bond, led.existential_deposit(asset_id))->Ok_0;
            lemma_register_keeps_wf(led, AssetKind::Bond, led.existential_deposit(asset_id));
            lemma_issue_moves_effect(cfg, l1, who, asset_id, nb, fee, net);
            lemma_issue_moves_keep_wf(cfg, l1, who, asset_id, nb, fee, net);
            assert(!reg.bonds.contains_key(nb)) by {
                if reg.bonds.contains_key(nb) {
                    assert(led.is_registered(nb));
                }
            }
            assert(register_spec(led, AssetKind::Bond, led.existential_deposit(asset_id)) is Ok);
            assert(nb as nat == led.next_asset_id);
            assert(forall|a: AssetId| #![trigger led.is_registered(a)]
                a >= led.next_asset_id ==> (!led.is_registered(a) && led.total_issuance(a) == 0));
            assert(!led.is_registered(nb));
            assert(led.total_issuance(nb) == 0);
            assert forall|x: AssetId|
                led2.balance(x, custody) >= #[trigger] outstanding(reg2, led2, x) by {
                let s = reg.bonds.dom();
                assert(reg2.bonds.dom() =~= s.insert(nb));
                lemma_sum_remove(s.insert(nb), backed_by(reg2, led2, x), nb);
                assert(s.insert(nb).remove(nb) =~= s);
                assert forall|c: AssetId| s.contains(c) implies backed_by(reg, led, x)(c)
                    == backed_by(reg2, led2, x)(c) by {
                    assert(led2.total_issuance(c) == l1.total_issuance(c));
                }
                lemma_sum_congruent(s, backed_by(reg, led, x), backed_by(reg2, led2, x));
                assert(outstanding(reg, led, x) <= led.balance(x, custody));
                assert(l1.balance(x, custody) == led.balance(x, custody));
            }
        }
    }
}

/// Redeeming keeps the tables each other's inverse.
pub proof fn lemma_redeem_keeps_bijection(
    cfg: Config,
    reg: RegistryModel,
    led: LedgerModel,
    who: AccountId,
    bond_id: AssetId,
    amount: Balance,
    now: Moment,
)
    requires
        reg.wf(),
        led.wf(),
        reg.listed_in(led),
    ensures
        redeem_spec(cfg, reg, led, who, bond_id, amount, now) is Ok ==> {
            let (reg2, led2, events) = redeem_spec(cfg, reg, led, who, bond_id, amount, now)->Ok_0;
            reg2.wf() && led2.wf() && reg2.listed_in(led2)
        },
{
    if redeem_spec(cfg, reg, led, who, bond_id, amount, now) is Ok {
        let (reg2, led2, events) = redeem_spec(cfg, reg, led, who, bond_id, amount, now)->Ok_0;
        let key = reg.bonds[bond_id];
        let l1 = withdraw_spec(led, bond_id, who, amount)->Ok_0;
        lemma_withdraw_keeps_wf(led, bond_id, who, amount);
        lemma_transfer_keeps_wf(l1, key.0, cfg.custody(), who, amount);
        if led2.total_issuance(bond_id) == 0 {
            crate::pallet::lemma_delisting_keeps_wf(reg, bond_id);
        }
        assert forall|b: AssetId| #[trigger] reg2.bonds.contains_key(b) implies led2.is_registered(b) by {
            assert(reg.bonds.contains_key(b));
        }
    }
}

/// Redeeming, by any account but the custody account, keeps every
/// outstanding bond backed (and everything else that the calls keep).
pub proof fn lemma_redeem_keeps_backing(
    cfg: Config,
    reg: RegistryModel,
    led: LedgerModel,
    who: AccountId,
    bond_id: AssetId,
    amount: Balance,
    now: Moment,
)
    requires
        sound(cfg, reg, led),
        who != cfg.custody(),
    ensures
        redeem_spec(cfg, reg, led, who, bond_id, amount, now) is Ok ==> {
            let (reg2, led2, events) = redeem_spec(cfg, reg, led, who, bond_id, amount, now)->Ok_0;
            sound(cfg, reg2, led2)
        },
{
    lemma_redeem_keeps_bijection(cfg, reg, led, who, bond_id, amount, now);
    let custody = cfg.custody();
    if redeem_spec(cfg, reg, led, who, bond_id, amount, now) is Ok {
        let (reg2, led2, events) = redeem_spec(cfg, reg, led, who, bond_id, amount, now)->Ok_0;
        let key = reg.bonds[bond_id];
        let u = key.0;
        let l1 = withdraw_spec(led, bond_id, who, amount)->Ok_0;
        assert forall|a: AssetId| #[trigger] led2.total_issuance(a) == led.total_issuance(a) - if a
            == bond_id {
            amount as int
        } else {
            0
        } by {
            assert(l1.total_issuance(a) == led2.total_issuance(a));
        }
        assert forall|a: AssetId| #[trigger] led2.balance(a, custody) == led.balance(a, custody) - if a
            == u {
            amount as int
        } else {
            0
        } by {
            assert(l1.balance(a, custody) == led.balance(a, custody));
        }
        assert forall|x: AssetId|
            led2.balance(x, custody) >= #[trigger] outstanding(reg2, led2, x) by {
            let s = reg.bonds.dom();
            let d = if u == x {
                -amount
            } else {
                0
            };
            assert forall|c: AssetId| s.contains(c) && c != bond_id implies backed_by(reg, led, x)(c)
                == backed_by(reg, led2, x)(c) by {
                assert(led2.total_issuance(c) == led.total_issuance(c));
            }
            assert(led2.total_issuance(bond_id) == led.total_issuance(bond_id) - amount);
            lemma_sum_bump(s, backed_by(reg, led, x), backed_by(reg, led2, x), bond_id, d);
            assert(outstanding(reg, led, x) <= led.balance(x, custody));
            if led2.total_issuance(bond_id) == 0 {
                assert(reg2.bonds.dom() =~= s.remove(bond_id));
                lemma_sum_remove(s, backed_by(reg, led2, x), bond_id);
                assert forall|c: AssetId| s.remove(bond_id).contains(c) implies backed_by(reg, led2, x)(
                    c,
                ) == backed_by(reg2, led2, x)(c) by {}
                lemma_sum_congruent(
                    s.remove(bond_id),
                    backed_by(reg, led2, x),
                    backed_by(reg2, led2, x),
                );
            }
        }
    }
}

/// Once a series is listed, a later issuance for the same underlying asset
/// and maturity, by any account and on any ledger, reuses the series'
/// token and reports no new token.
pub proof fn lemma_reissue_reuses_token(
    cfg: Config,
    reg: RegistryModel,
    led: LedgerModel,
    who1: AccountId,
    who2: AccountId,
    asset_id: AssetId,
    amount1: Balance,
    amount2: Balance,
    maturity: Moment,
    now1: Moment,
    now2: Moment,
    led_later: LedgerModel,
)
    requires
        issue_spec(cfg, reg, led, who1, asset_id, amount1, maturity, now1) is Ok,
    ensures
        ({
            let (reg1, led1, events1) = issue_spec(
                cfg,
                reg,
                led,
                who1,
                asset_id,
                amount1,
                maturity,
                now1,
            )->Ok_0;
            let bond_id = reg1.bond_ids[(asset_id, maturity)];
            &&& reg1.bond_ids.contains_key((asset_id, maturity))
            &&& events1.last() == Event::BondsIssued {
                issuer: who1,
                bond_id,
                amount: issue_net(cfg, amount1),
                fee: crate::pallet::issue_fee(cfg, amount1),
            }
            &&& issue_spec(cfg, reg1, led_later, who2, asset_id, amount2, maturity, now2) is Ok ==> {
                let (reg2, led2, events2) = issue_spec(
                    cfg,
                    reg1,
                    led_later,
                    who2,
                    asset_id,
                    amount2,
                    maturity,
                    now2,
                )->Ok_0;
                &&& reg2 == reg1
                &&& events2 == seq![
                    Event::BondsIssued {
                        issuer: who2,
                        bond_id,
                        amount: issue_net(cfg, amount2),
                        fee: crate::pallet::issue_fee(cfg, amount2),
                    },
                ]
            }
        }),
{
}

/// Issuing into a new series and then redeeming every bond issued delists
/// the series; a later issuance for the same underlying asset and maturity
/// opens it again under a token other than the first.
pub proof fn lemma_full_redemption_reopens_series(
    cfg: Config,
    reg: RegistryModel,
    led: LedgerModel,
    who: AccountId,
    holder: AccountId,
    later: AccountId,
    asset_id: AssetId,
    amount: Balance,
    later_amount: Balance,
    maturity: Moment,
    now1: Moment,
    now2: Moment,
    now3: Moment,
)
    requires
        led.wf(),
        !reg.bond_ids.contains_key((asset_id, maturity)),
        issue_spec(cfg, reg, led, who, asset_id, amount, maturity, now1) is Ok,
    ensures
        ({
            let key = (asset_id, maturity);
            let (reg1, led1, events1) = issue_spec(
                cfg,
                reg,
                led,
                who,
                asset_id,
                amount,
                maturity,
                now1,
            )->Ok_0;
            let bond_id = reg1.bond_ids[key];
            redeem_spec(cfg, reg1, led1, holder, bond_id, issue_net(cfg, amount), now2) is Ok ==> {
                let (reg2, led2, events2) = redeem_spec(
                    cfg,
                    reg1,
                    led1,
                    holder,
                    bond_id,
                    issue_net(cfg, amount),
                    now2,
                )->Ok_0;
                &&& !reg2.bond_ids.contains_key(key)
                &&& !reg2.bonds.contains_key(bond_id)
                &&& issue_spec(cfg, reg2, led2, later, asset_id, later_amount, maturity, now3) is Ok
                    ==> {
                    let (reg3, led3, events3) = issue_spec(
                        cfg,
                        reg2,
                        led2,
                        later,
                        asset_id,
                        later_amount,
                        maturity,
                        now3,
                    )->Ok_0;
                    &&& reg3.bond_ids[key] != bond_id
                    &&& events3.len() == 2
                    &&& events3[0] == Event::BondTokenCreated {
                        issuer: later,
                        asset_id,
                        bond_id: reg3.bond_ids[key],
                        maturity,
                    }
                }
            }
        }),
{
    let key = (asset_id, maturity);
    let fee = crate::pallet::issue_fee(cfg, amount);
    let net = issue_net(cfg, amount);
    let (reg1, led1, events1) = issue_spec(cfg, reg, led, who, asset_id, amount, maturity, now1)->Ok_0;
    let (l0, nb) = register_spec(led, AssetKind::Bond, led.existential_deposit(asset_id))->Ok_0;
    assert(register_spec(led, AssetKind::Bond, led.existential_deposit(asset_id)) is Ok);
    assert(forall|a: AssetId| #![trigger led.is_registered(a)]
        a >= led.next_asset_id ==> (!led.is_registered(a) && led.total_issuance(a) == 0));
    assert(!led.is_registered(nb));
    let bond_id = reg1.bond_ids[key];
    assert(bond_id == nb);
    lemma_issue_moves_frame(cfg, l0, who, asset_id, nb, fee, net);
    assert(led1.total_issuance(nb) == net) by {
        let l1 = transfer_spec(l0, asset_id, who, cfg.custody(), net)->Ok_0;
        let l2 = transfer_spec(l1, asset_id, who, cfg.fee_receiver, fee)->Ok_0;
        assert(l2.total_issuance(nb) == 0);
    }
}

} // verus!
