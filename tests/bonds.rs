use pallet_bonds::fee::split_fee;
use pallet_bonds::{
    AssetKind, Config, Error, Event, FeeRate, Ledger, LedgerError, Pallet, PalletId,
};

const ALICE: u64 = 1;
const BOB: u64 = 2;
const TREASURY: u64 = 99;
const ONE: u128 = 1_000_000_000_000;
const NOW: u64 = 1_689_844_300_000;
const MONTH: u64 = 2_629_800_000;

fn config(fee_percent: u32) -> Config {
    Config {
        pallet_id: PalletId(*b"pltbonds"),
        min_maturity: MONTH,
        protocol_fee: FeeRate::from_percent(fee_percent),
        fee_receiver: TREASURY,
    }
}

/// A ledger with one token (existential deposit `ed`) and `ALICE` and `BOB`
/// funded with 1000 units each.
fn setup(ed: u128) -> (Ledger, u32) {
    let mut ledger = Ledger::new();
    let token = ledger.register_asset(AssetKind::Token, ed).unwrap();
    ledger.deposit(token, ALICE, 1000 * ONE).unwrap();
    ledger.deposit(token, BOB, 1000 * ONE).unwrap();
    (ledger, token)
}

fn created_id(events: &[Event]) -> u32 {
    match events[0] {
        Event::BondTokenCreated { bond_id, .. } => bond_id,
        other => panic!("unexpected event {:?}", other),
    }
}

#[test]
fn fee_rounds_up_one_percent_of_hundred() {
    assert_eq!(split_fee(FeeRate::from_percent(1), 100), (1, 99));
    // a fraction of a unit is still charged as a whole unit
    assert_eq!(split_fee(FeeRate::from_percent(1), 101), (2, 99));
    assert_eq!(split_fee(FeeRate::from_parts(1), 1), (1, 0));
}

#[test]
fn fee_edge_cases() {
    assert_eq!(split_fee(FeeRate::from_percent(0), 12345), (0, 12345));
    assert_eq!(split_fee(FeeRate::from_percent(1), 0), (0, 0));
    assert_eq!(split_fee(FeeRate::from_percent(100), 7), (7, 0));
    assert_eq!(split_fee(FeeRate::from_percent(3), u128::MAX), (
        10_208_471_007_628_153_903_901_238_222_953_046_344,
        u128::MAX - 10_208_471_007_628_153_903_901_238_222_953_046_344,
    ));
    assert_eq!(FeeRate::from_parts(2_000_000).parts(), 1_000_000);
    assert_eq!(FeeRate::from_percent(250).parts(), 1_000_000);
    assert_eq!(FeeRate::from_percent(5).parts(), 50_000);
}

#[test]
fn custody_account_is_derived_from_the_pallet_id() {
    let pallet = Pallet::new(config(0));
    assert_eq!(pallet.pallet_account_id(), u64::from_le_bytes(*b"modlpltb"));
    let other = Pallet::new(Config { pallet_id: PalletId(*b"py/trsry"), ..config(0) });
    assert_eq!(other.pallet_account_id(), u64::from_le_bytes(*b"modlpy/t"));
}

#[test]
fn issue_registers_bond_and_moves_funds() {
    let (mut ledger, token) = setup(ONE / 100);
    let mut pallet = Pallet::new(config(1));
    let custody = pallet.pallet_account_id();
    let maturity = NOW + MONTH;

    let events = pallet.issue(&mut ledger, ALICE, token, 100 * ONE, maturity, NOW).unwrap();
    let bond_id = created_id(&events);
    assert_ne!(bond_id, token);
    assert_eq!(
        events,
        vec![
            Event::BondTokenCreated { issuer: ALICE, asset_id: token, bond_id, maturity },
            Event::BondsIssued { issuer: ALICE, bond_id, amount: 99 * ONE, fee: ONE },
        ]
    );
    assert_eq!(pallet.bond_id(token, maturity), Some(bond_id));
    assert_eq!(pallet.bonds(bond_id), Some((token, maturity)));
    assert_eq!(ledger.balance(token, ALICE), 900 * ONE);
    assert_eq!(ledger.balance(token, custody), 99 * ONE);
    assert_eq!(ledger.balance(token, TREASURY), ONE);
    assert_eq!(ledger.balance(bond_id, ALICE), 99 * ONE);
    assert_eq!(ledger.total_issuance(bond_id), 99 * ONE);
    let details = ledger.asset_details(bond_id).unwrap();
    assert_eq!(details.kind, AssetKind::Bond);
    assert_eq!(details.existential_deposit, ONE / 100);
    assert_eq!(ledger.existential_deposit(bond_id), ledger.existential_deposit(token));
}

#[test]
fn issue_with_fee_on_fractional_units() {
    let (mut ledger, token) = setup(0);
    let mut pallet = Pallet::new(config(1));
    let events = pallet.issue(&mut ledger, ALICE, token, 100, NOW + MONTH, NOW).unwrap();
    let bond_id = created_id(&events);
    assert_eq!(events[1], Event::BondsIssued { issuer: ALICE, bond_id, amount: 99, fee: 1 });
    assert_eq!(ledger.balance(token, TREASURY), 1);
    assert_eq!(ledger.balance(bond_id, ALICE), 99);
}

#[test]
fn second_issue_reuses_the_series() {
    let (mut ledger, token) = setup(0);
    let mut pallet = Pallet::new(config(0));
    let maturity = NOW + 2 * MONTH;
    let first = pallet.issue(&mut ledger, ALICE, token, 10 * ONE, maturity, NOW).unwrap();
    let bond_id = created_id(&first);
    let second = pallet.issue(&mut ledger, BOB, token, 5 * ONE, maturity, NOW + 1).unwrap();
    assert_eq!(
        second,
        vec![Event::BondsIssued { issuer: BOB, bond_id, amount: 5 * ONE, fee: 0 }]
    );
    assert_eq!(ledger.total_issuance(bond_id), 15 * ONE);
    assert_eq!(ledger.balance(bond_id, BOB), 5 * ONE);
    // another maturity is another series
    let third = pallet.issue(&mut ledger, BOB, token, ONE, maturity + 1, NOW).unwrap();
    assert_ne!(created_id(&third), bond_id);
}

#[test]
fn issue_into_matured_series_is_allowed() {
    let (mut ledger, token) = setup(0);
    let mut pallet = Pallet::new(config(0));
    let maturity = NOW + MONTH;
    let first = pallet.issue(&mut ledger, ALICE, token, ONE, maturity, NOW).unwrap();
    let bond_id = created_id(&first);
    let later = pallet.issue(&mut ledger, BOB, token, ONE, maturity, maturity + 10).unwrap();
    assert_eq!(later, vec![Event::BondsIssued { issuer: BOB, bond_id, amount: ONE, fee: 0 }]);
}

#[test]
fn redeem_waits_for_maturity() {
    let (mut ledger, token) = setup(0);
    let mut pallet = Pallet::new(config(0));
    let maturity = NOW + MONTH;
    let events = pallet.issue(&mut ledger, ALICE, token, 10 * ONE, maturity, NOW).unwrap();
    let bond_id = created_id(&events);

    assert_eq!(
        pallet.redeem(&mut ledger, ALICE, bond_id, ONE, maturity - 1),
        Err(Error::BondNotMature)
    );
    assert_eq!(ledger.balance(bond_id, ALICE), 10 * ONE);
    assert_eq!(
        pallet.redeem(&mut ledger, ALICE, bond_id, ONE, maturity),
        Ok(vec![Event::BondsRedeemed { who: ALICE, bond_id, amount: ONE }])
    );
    assert_eq!(ledger.balance(bond_id, ALICE), 9 * ONE);
    assert_eq!(ledger.balance(token, ALICE), 991 * ONE);
    // partially redeemed: the series stays listed
    assert_eq!(pallet.bonds(bond_id), Some((token, maturity)));
}

#[test]
fn full_redemption_removes_series_and_reissue_creates_new_token() {
    let (mut ledger, token) = setup(0);
    let mut pallet = Pallet::new(config(0));
    let custody = pallet.pallet_account_id();
    let maturity = NOW + MONTH;
    let events = pallet.issue(&mut ledger, ALICE, token, 100, maturity, NOW).unwrap();
    let bond_id = created_id(&events);

    pallet.redeem(&mut ledger, ALICE, bond_id, 100, maturity).unwrap();
    assert_eq!(ledger.total_issuance(bond_id), 0);
    assert_eq!(ledger.balance(token, custody), 0);
    assert_eq!(pallet.bond_id(token, maturity), None);
    assert_eq!(pallet.bonds(bond_id), None);

    let again = pallet.issue(&mut ledger, ALICE, token, 100, maturity, NOW).unwrap();
    let new_id = created_id(&again);
    assert_ne!(new_id, bond_id);
    assert_eq!(again.len(), 2);
    assert_eq!(pallet.bond_id(token, maturity), Some(new_id));
    assert_eq!(
        pallet.redeem(&mut ledger, ALICE, bond_id, 1, maturity),
        Err(Error::BondNotRegistered)
    );
}

#[test]
fn failed_mint_rolls_everything_back() {
    let (mut ledger, token) = setup(50);
    let mut pallet = Pallet::new(config(0));
    let custody = pallet.pallet_account_id();
    // custody already holds enough of the token to accept a small transfer
    ledger.deposit(token, custody, 100).unwrap();
    let bond_asset = ledger.register_asset(AssetKind::Token, 0).unwrap() + 1;
    let maturity = NOW + MONTH;

    // 10 bonds would leave ALICE below the bond's existential deposit of 50
    assert_eq!(
        pallet.issue(&mut ledger, ALICE, token, 10, maturity, NOW),
        Err(Error::Ledger(LedgerError::ExistentialDeposit))
    );
    assert_eq!(pallet.bond_id(token, maturity), None);
    assert_eq!(pallet.bonds(bond_asset), None);
    assert_eq!(ledger.asset_details(bond_asset), None);
    assert_eq!(ledger.balance(token, ALICE), 1000 * ONE);
    assert_eq!(ledger.balance(token, custody), 100);
    assert_eq!(ledger.balance(bond_asset, ALICE), 0);

    // the same call with enough for the deposit goes through, under the same id
    let events = pallet.issue(&mut ledger, ALICE, token, 60, maturity, NOW).unwrap();
    assert_eq!(created_id(&events), bond_asset);
}

#[test]
fn failed_fee_transfer_rolls_back() {
    let (mut ledger, token) = setup(50);
    let mut pallet = Pallet::new(config(1));
    let custody = pallet.pallet_account_id();
    let maturity = NOW + MONTH;
    // the fee of 1 would leave the fee receiver below the existential deposit
    assert_eq!(
        pallet.issue(&mut ledger, ALICE, token, 100, maturity, NOW),
        Err(Error::Ledger(LedgerError::ExistentialDeposit))
    );
    assert_eq!(ledger.balance(token, custody), 0);
    assert_eq!(ledger.balance(token, TREASURY), 0);
    assert_eq!(ledger.balance(token, ALICE), 1000 * ONE);
    assert_eq!(pallet.bond_id(token, maturity), None);
}

#[test]
fn maturity_below_minimum_is_rejected() {
    let (mut ledger, token) = setup(0);
    let mut pallet = Pallet::new(config(0));
    assert_eq!(
        pallet.issue(&mut ledger, ALICE, token, ONE, NOW + MONTH - 1, NOW),
        Err(Error::InvalidMaturity)
    );
    assert_eq!(
        pallet.issue(&mut ledger, ALICE, token, ONE, NOW - 1, NOW),
        Err(Error::InvalidMaturity)
    );
    assert_eq!(pallet.bond_id(token, NOW + MONTH - 1), None);
    assert_eq!(pallet.bond_id(token, NOW - 1), None);
    assert_eq!(ledger.balance(token, ALICE), 1000 * ONE);
    assert_eq!(ledger.asset_details(token + 1), None);
    // exactly the minimum is enough
    assert!(pallet.issue(&mut ledger, ALICE, token, ONE, NOW + MONTH, NOW).is_ok());
}

#[test]
fn issue_without_funds_fails() {
    let (mut ledger, token) = setup(0);
    let mut pallet = Pallet::new(config(0));
    let maturity = NOW + MONTH;
    assert_eq!(
        pallet.issue(&mut ledger, ALICE, token, 1001 * ONE, maturity, NOW),
        Err(Error::Ledger(LedgerError::BalanceTooLow))
    );
    assert_eq!(
        pallet.issue(&mut ledger, ALICE, token + 7, ONE, maturity, NOW),
        Err(Error::Ledger(LedgerError::UnknownAsset))
    );
    assert_eq!(pallet.bond_id(token, maturity), None);
}

#[test]
fn redeem_more_than_held_fails() {
    let (mut ledger, token) = setup(0);
    let mut pallet = Pallet::new(config(0));
    let maturity = NOW + MONTH;
    let events = pallet.issue(&mut ledger, ALICE, token, 10, maturity, NOW).unwrap();
    let bond_id = created_id(&events);
    assert_eq!(
        pallet.redeem(&mut ledger, BOB, bond_id, 1, maturity),
        Err(Error::Ledger(LedgerError::BalanceTooLow))
    );
    assert_eq!(
        pallet.redeem(&mut ledger, ALICE, bond_id, 11, maturity),
        Err(Error::Ledger(LedgerError::BalanceTooLow))
    );
    assert_eq!(ledger.total_issuance(bond_id), 10);
}

#[test]
fn bonds_change_hands_before_redemption() {
    let (mut ledger, token) = setup(0);
    let mut pallet = Pallet::new(config(0));
    let maturity = NOW + MONTH;
    let events = pallet.issue(&mut ledger, ALICE, token, 10, maturity, NOW).unwrap();
    let bond_id = created_id(&events);
    ledger.transfer(bond_id, ALICE, BOB, 4).unwrap();
    pallet.redeem(&mut ledger, BOB, bond_id, 4, maturity).unwrap();
    assert_eq!(ledger.balance(token, BOB), 1000 * ONE + 4);
    assert_eq!(pallet.bonds(bond_id), Some((token, maturity)));
    pallet.redeem(&mut ledger, ALICE, bond_id, 6, maturity).unwrap();
    assert_eq!(pallet.bonds(bond_id), None);
}

#[test]
fn tables_stay_inverse_and_custody_backs_bonds() {
    let (mut ledger, token) = setup(0);
    let other = ledger.register_asset(AssetKind::Token, 0).unwrap();
    ledger.deposit(other, BOB, 500).unwrap();
    let mut pallet = Pallet::new(config(2));
    let custody = pallet.pallet_account_id();
    let m1 = NOW + MONTH;
    let m2 = NOW + 3 * MONTH;
    let b1 = created_id(&pallet.issue(&mut ledger, ALICE, token, 1000, m1, NOW).unwrap());
    let b2 = created_id(&pallet.issue(&mut ledger, BOB, token, 300, m2, NOW).unwrap());
    let b3 = created_id(&pallet.issue(&mut ledger, BOB, other, 200, m1, NOW).unwrap());
    pallet.issue(&mut ledger, BOB, token, 50, m1, NOW).unwrap();
    pallet.redeem(&mut ledger, ALICE, b1, 400, m2).unwrap();
    pallet.redeem(&mut ledger, BOB, b3, 196, m1).unwrap();

    for (b, key) in [(b1, (token, m1)), (b2, (token, m2))] {
        assert_eq!(pallet.bonds(b), Some(key));
        assert_eq!(pallet.bond_id(key.0, key.1), Some(b));
    }
    assert_eq!(pallet.bonds(b3), None);
    assert_eq!(pallet.bond_id(other, m1), None);
    let outstanding = ledger.total_issuance(b1) + ledger.total_issuance(b2);
    assert_eq!(outstanding, 980 + 294 + 49 - 400);
    assert!(ledger.balance(token, custody) >= outstanding);
    assert_eq!(ledger.balance(other, custody), 0);
}

#[test]
fn ledger_operations_and_errors() {
    let mut ledger = Ledger::new();
    assert_eq!(ledger.deposit(0, ALICE, 5), Err(LedgerError::UnknownAsset));
    let a = ledger.register_asset(AssetKind::Token, 10).unwrap();
    let b = ledger.register_asset(AssetKind::Token, 0).unwrap();
    assert_eq!((a, b), (0, 1));
    assert_eq!(ledger.deposit(a, ALICE, 5), Err(LedgerError::ExistentialDeposit));
    ledger.deposit(a, ALICE, 100).unwrap();
    assert_eq!(ledger.transfer(a, ALICE, BOB, 5), Err(LedgerError::ExistentialDeposit));
    assert_eq!(ledger.transfer(a, ALICE, BOB, 101), Err(LedgerError::BalanceTooLow));
    ledger.transfer(a, ALICE, BOB, 40).unwrap();
    assert_eq!((ledger.balance(a, ALICE), ledger.balance(a, BOB)), (60, 40));
    assert_eq!(ledger.total_issuance(a), 100);
    ledger.transfer(a, ALICE, ALICE, 1_000).unwrap();
    ledger.transfer(a, ALICE, BOB, 0).unwrap();
    assert_eq!(ledger.withdraw(a, BOB, 41), Err(LedgerError::BalanceTooLow));
    ledger.withdraw(a, BOB, 40).unwrap();
    assert_eq!(ledger.total_issuance(a), 60);
    ledger.deposit(b, ALICE, u128::MAX).unwrap();
    assert_eq!(ledger.deposit(b, BOB, 1), Err(LedgerError::Overflow));
    assert_eq!(ledger.withdraw(7, ALICE, 1), Err(LedgerError::UnknownAsset));
    let snapshot = ledger.snapshot();
    assert_eq!(snapshot.balance(b, ALICE), u128::MAX);
}
