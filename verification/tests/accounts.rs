use drift_sdk::accounts::{build_accounts, supports, BaseAccounts};
use drift_sdk::constants::{MarketTable, PerpMarketConfig, SpotMarketConfig};
use drift_sdk::pubkey::Pubkey;
use drift_sdk::remaining::AccountMeta;
use drift_sdk::types::{Context, MarketId, MarketType};
use drift_sdk::user::{PerpPosition, SpotPosition, User};

fn key(n: u8) -> Pubkey {
    Pubkey { bytes: [n; 32] }
}

fn spot(market_index: u16, account: u8, oracle: u8) -> SpotMarketConfig {
    SpotMarketConfig { market_index, account: key(account), oracle: key(oracle) }
}

fn perp(market_index: u16, account: u8, oracle: u8) -> PerpMarketConfig {
    PerpMarketConfig { market_index, account: key(account), oracle: key(oracle) }
}

fn table() -> MarketTable {
    MarketTable {
        dev_spot: vec![spot(0, 50, 100), spot(1, 40, 90), spot(256, 41, 91)],
        dev_perp: vec![perp(0, 30, 90), perp(1, 20, 80), perp(2, 10, 70)],
        main_spot: vec![spot(0, 51, 101)],
        main_perp: vec![],
    }
}

fn user(spots: &[(u16, bool)], perps: &[(u16, bool)]) -> User {
    let mut spot_positions: Vec<SpotPosition> = Vec::new();
    for (slot, (market_index, available)) in spots.iter().enumerate() {
        spot_positions.push(SpotPosition {
            slot,
            market_index: *market_index,
            available: *available,
        });
    }
    let mut perp_positions: Vec<PerpPosition> = Vec::new();
    for (slot, (market_index, available)) in perps.iter().enumerate() {
        perp_positions.push(PerpPosition {
            slot,
            market_index: *market_index,
            available: *available,
            open: !*available,
        });
    }
    User { orders: Vec::new(), spot_positions, perp_positions }
}

fn base() -> BaseAccounts {
    BaseAccounts::CancelOrder { state: key(1), authority: key(2), user: key(3) }
}

fn meta(n: u8, is_writable: bool) -> AccountMeta {
    AccountMeta { pubkey: key(n), is_signer: false, is_writable }
}

fn id(index: u16, kind: MarketType) -> MarketId {
    MarketId::new(index, kind)
}

#[test]
fn quote_market_is_always_listed() {
    let list = build_accounts(Context::Dev, base(), &user(&[], &[]), &[], &[], &table());
    assert_eq!(list.base, base());
    assert_eq!(list.remaining, vec![meta(100, false), meta(50, false)]);
    let list = build_accounts(Context::Main, base(), &user(&[], &[]), &[], &[], &table());
    assert_eq!(list.remaining, vec![meta(101, false), meta(51, false)]);
}

#[test]
fn oracles_come_first_then_spot_then_perp_markets() {
    let list = build_accounts(
        Context::Dev,
        base(),
        &user(&[], &[]),
        &[id(1, MarketType::Perp), id(2, MarketType::Perp), id(1, MarketType::Spot)],
        &[],
        &table(),
    );
    assert_eq!(
        list.remaining,
        vec![
            meta(70, false),
            meta(80, false),
            meta(90, false),
            meta(100, false),
            meta(40, false),
            meta(50, false),
            meta(10, false),
            meta(20, false),
        ]
    );
}

#[test]
fn shared_oracles_are_listed_once() {
    let list = build_accounts(
        Context::Dev,
        base(),
        &user(&[], &[]),
        &[id(0, MarketType::Perp), id(1, MarketType::Spot)],
        &[],
        &table(),
    );
    assert_eq!(
        list.remaining,
        vec![
            meta(90, false),
            meta(100, false),
            meta(40, false),
            meta(50, false),
            meta(30, false),
        ]
    );
}

#[test]
fn positions_in_use_are_listed_and_free_ones_are_not() {
    let list = build_accounts(
        Context::Dev,
        base(),
        &user(&[(1, false), (9, true)], &[(2, false), (1, true)]),
        &[],
        &[],
        &table(),
    );
    assert_eq!(
        list.remaining,
        vec![
            meta(70, false),
            meta(90, false),
            meta(100, false),
            meta(40, false),
            meta(50, false),
            meta(10, false),
        ]
    );
}

#[test]
fn writable_takes_priority_over_readable() {
    let list = build_accounts(
        Context::Dev,
        base(),
        &user(&[(0, false)], &[(1, false)]),
        &[id(1, MarketType::Perp), id(0, MarketType::Spot)],
        &[id(1, MarketType::Perp), id(0, MarketType::Spot)],
        &table(),
    );
    assert_eq!(
        list.remaining,
        vec![meta(80, false), meta(100, false), meta(50, true), meta(20, true)]
    );
}

#[test]
fn markets_are_told_apart_by_their_whole_index() {
    let list = build_accounts(
        Context::Dev,
        base(),
        &user(&[], &[]),
        &[id(256, MarketType::Spot)],
        &[],
        &table(),
    );
    assert_eq!(
        list.remaining,
        vec![meta(91, false), meta(100, false), meta(41, false), meta(50, false)]
    );
}

#[test]
fn unknown_markets_are_not_supported() {
    let none = user(&[], &[]);
    assert!(supports(Context::Dev, &none, &[], &[], &table()));
    assert!(supports(Context::Dev, &none, &[id(2, MarketType::Perp)], &[], &table()));
    assert!(!supports(Context::Dev, &none, &[id(3, MarketType::Perp)], &[], &table()));
    assert!(!supports(Context::Main, &none, &[], &[id(2, MarketType::Perp)], &table()));
    assert!(!supports(Context::Dev, &user(&[(7, false)], &[]), &[], &[], &table()));
    assert!(supports(Context::Dev, &user(&[(7, true)], &[]), &[], &[], &table()));
    assert!(!supports(Context::Dev, &user(&[], &[(7, false)]), &[], &[], &table()));
}

#[test]
fn every_known_market_is_supported() {
    let none = user(&[], &[]);
    let mut markets = table();
    markets.dev_perp.push(perp(63, 5, 6));
    markets.dev_perp.push(perp(64, 7, 8));
    markets.dev_perp.push(perp(320, 3, 4));
    let ids = [id(63, MarketType::Perp), id(64, MarketType::Perp), id(320, MarketType::Perp)];
    assert!(supports(Context::Dev, &none, &ids, &[], &markets));
    let list = build_accounts(Context::Dev, base(), &none, &[], &ids, &markets);
    assert_eq!(
        list.remaining,
        vec![
            meta(4, false),
            meta(6, false),
            meta(8, false),
            meta(100, false),
            meta(50, false),
            meta(3, true),
            meta(5, true),
            meta(7, true),
        ]
    );
}

#[test]
fn an_unknown_market_is_not_hidden_by_a_known_one() {
    let mut markets = table();
    markets.dev_spot.push(spot(261, 42, 92));
    let holds = user(&[(261, false)], &[]);
    assert!(supports(Context::Dev, &holds, &[], &[], &markets));
    let holds = user(&[(261, false), (5, false)], &[]);
    assert!(!supports(Context::Dev, &holds, &[], &[], &markets));
    let holds = user(&[(512, false)], &[]);
    assert!(!supports(Context::Dev, &holds, &[], &[], &markets));
}

#[test]
fn markets_are_looked_up_by_index() {
    let markets = table();
    assert_eq!(
        markets.spot_market_config_by_index(Context::Dev, 1),
        Some(spot(1, 40, 90))
    );
    assert_eq!(markets.spot_market_config_by_index(Context::Main, 1), None);
    assert_eq!(
        markets.perp_market_config_by_index(Context::Dev, 2),
        Some(perp(2, 10, 70))
    );
    assert_eq!(markets.perp_market_config_by_index(Context::Main, 2), None);
}

#[test]
fn every_open_position_has_its_market_listed() {
    let list = build_accounts(
        Context::Dev,
        base(),
        &user(&[(1, false), (0, true)], &[(2, false), (1, true)]),
        &[],
        &[],
        &table(),
    );
    assert_eq!(
        list.remaining,
        vec![
            meta(70, false),
            meta(90, false),
            meta(100, false),
            meta(40, false),
            meta(50, false),
            meta(10, false),
        ]
    );
}
