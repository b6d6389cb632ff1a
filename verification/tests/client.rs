use drift_sdk::client::{
    DriftClient, DriftClientBackend, FetchReply, SubscribeAction, SubscribeEvent,
};
use drift_sdk::endpoint::{checked_ws_url, AccountEncoding, Commitment};
use drift_sdk::pubkey::Pubkey;
use drift_sdk::types::SdkError;
use drift_sdk::user::{Order, OrderStatus, PerpPosition, SpotPosition, User};

fn key(n: u8) -> Pubkey {
    Pubkey { bytes: [n; 32] }
}

fn order(slot: usize, order_id: u32, user_order_id: u8, status: OrderStatus) -> Order {
    Order { slot, order_id, user_order_id, status }
}

fn spot(slot: usize, market_index: u16, available: bool) -> SpotPosition {
    SpotPosition { slot, market_index, available }
}

fn perp(slot: usize, market_index: u16, available: bool, open: bool) -> PerpPosition {
    PerpPosition { slot, market_index, available, open }
}

fn account() -> User {
    User {
        orders: vec![
            order(0, 5, 1, OrderStatus::Filled),
            order(1, 6, 1, OrderStatus::Open),
            order(2, 5, 2, OrderStatus::Open),
            order(3, 5, 1, OrderStatus::Open),
            order(4, 0, 0, OrderStatus::Init),
            order(5, 9, 3, OrderStatus::Canceled),
        ],
        spot_positions: vec![spot(0, 0, false), spot(1, 3, true), spot(2, 1, true)],
        perp_positions: vec![
            perp(0, 2, false, true),
            perp(1, 7, false, false),
            perp(2, 0, true, false),
        ],
    }
}

fn numbered(order_id: u32) -> User {
    User {
        orders: vec![order(0, order_id, 0, OrderStatus::Open)],
        spot_positions: vec![],
        perp_positions: vec![],
    }
}

fn client() -> DriftClient {
    DriftClient::new("https://api.devnet.solana.com")
}

fn reply() -> Option<FetchReply> {
    Some(FetchReply::Account(account()))
}

#[test]
fn open_orders_are_listed() {
    let orders = client().all_orders(&key(1), reply()).unwrap();
    assert_eq!(
        orders,
        vec![
            order(1, 6, 1, OrderStatus::Open),
            order(2, 5, 2, OrderStatus::Open),
            order(3, 5, 1, OrderStatus::Open),
        ]
    );
}

#[test]
fn active_positions_are_listed() {
    let (spots, perps) = client().all_positions(&key(1), reply()).unwrap();
    assert_eq!(spots, vec![spot(0, 0, false)]);
    assert_eq!(perps, vec![perp(0, 2, false, true)]);
}

#[test]
fn open_order_is_found_by_id() {
    let c = client();
    assert_eq!(
        c.get_order_by_id(&key(1), reply(), 5),
        Ok(Some(order(2, 5, 2, OrderStatus::Open)))
    );
    assert_eq!(c.get_order_by_id(&key(1), reply(), 7), Ok(None));
    // orders that are not open do not count
    assert_eq!(c.get_order_by_id(&key(1), reply(), 0), Ok(None));
    assert_eq!(c.get_order_by_id(&key(1), reply(), 9), Ok(None));
}

#[test]
fn open_order_is_found_by_user_id() {
    let c = client();
    assert_eq!(
        c.get_order_by_user_id(&key(1), reply(), 1),
        Ok(Some(order(1, 6, 1, OrderStatus::Open)))
    );
    assert_eq!(c.get_order_by_user_id(&key(1), reply(), 0), Ok(None));
    assert_eq!(c.get_order_by_user_id(&key(1), reply(), 3), Ok(None));
}

#[test]
fn positions_are_found_by_market() {
    let c = client();
    assert_eq!(c.perp_position(&key(1), reply(), 7), Ok(Some(perp(1, 7, false, false))));
    assert_eq!(c.perp_position(&key(1), reply(), 1), Ok(None));
    assert_eq!(c.spot_position(&key(1), reply(), 0), Ok(Some(spot(0, 0, false))));
    assert_eq!(c.spot_position(&key(1), reply(), 2), Ok(None));
    // unused records are no positions
    assert_eq!(c.spot_position(&key(1), reply(), 3), Ok(None));
    assert_eq!(c.spot_position(&key(1), reply(), 1), Ok(None));
    assert_eq!(c.perp_position(&key(1), reply(), 0), Ok(None));
}

#[test]
fn a_new_account_has_no_positions() {
    let empty = || {
        Some(FetchReply::Account(User {
            orders: vec![order(0, 0, 0, OrderStatus::Init); 32],
            spot_positions: vec![spot(0, 0, true); 8],
            perp_positions: vec![perp(0, 0, true, false); 8],
        }))
    };
    let c = client();
    assert_eq!(c.spot_position(&key(1), empty(), 0), Ok(None));
    assert_eq!(c.perp_position(&key(1), empty(), 0), Ok(None));
    assert_eq!(c.all_positions(&key(1), empty()), Ok((vec![], vec![])));
    assert_eq!(c.all_orders(&key(1), empty()), Ok(vec![]));
}

#[test]
fn positions_behind_unused_records_are_found() {
    let data = || {
        Some(FetchReply::Account(User {
            orders: vec![],
            spot_positions: vec![spot(0, 0, true), spot(1, 0, false), spot(2, 0, false)],
            perp_positions: vec![perp(0, 0, true, false), perp(1, 0, false, true)],
        }))
    };
    let c = client();
    assert_eq!(c.spot_position(&key(1), data(), 0), Ok(Some(spot(1, 0, false))));
    assert_eq!(c.perp_position(&key(1), data(), 0), Ok(Some(perp(1, 0, false, true))));
}

#[test]
fn account_data_is_what_the_network_sent() {
    assert_eq!(client().get_account_data(&key(1), reply()), Ok(account()));
}

#[test]
fn failed_fetches_are_reported() {
    let c = client();
    let down = || Some(FetchReply::Failed("down".to_string()));
    let rpc = SdkError::Rpc("down".to_string());
    assert_eq!(c.get_account_data(&key(1), down()).unwrap_err(), rpc);
    assert_eq!(c.all_orders(&key(1), down()).unwrap_err(), rpc);
    assert_eq!(c.all_positions(&key(1), down()).unwrap_err(), rpc);
    assert_eq!(c.get_order_by_id(&key(1), down(), 1).unwrap_err(), rpc);
    assert_eq!(c.get_order_by_user_id(&key(1), down(), 1).unwrap_err(), rpc);
    assert_eq!(c.perp_position(&key(1), down(), 1).unwrap_err(), rpc);
    assert_eq!(
        c.spot_position(&key(1), Some(FetchReply::Undecodable), 1).unwrap_err(),
        SdkError::InvalidAccount
    );
}

#[test]
fn following_an_account() {
    let mut c = client();
    let a = key(1);
    assert!(!c.backend().is_cached(&a));
    assert_eq!(c.subscribe_account(&a, SubscribeEvent::Begin), SubscribeAction::Fetch);
    assert!(!c.backend().is_cached(&a));
    assert_eq!(
        c.subscribe_account(&a, SubscribeEvent::Fetched(Ok(numbered(1)))),
        SubscribeAction::OpenStream { feed: 0 }
    );
    assert!(c.backend().is_cached(&a));
    assert_eq!(
        c.subscribe_account(&a, SubscribeEvent::Opened { feed: 0, result: Ok(()) }),
        SubscribeAction::Listen { feed: 0 }
    );
    assert_eq!(c.get_account_data(&a, None), Ok(numbered(1)));
    assert_eq!(
        c.subscribe_account(&a, SubscribeEvent::Updated { feed: 0, user: numbered(2) }),
        SubscribeAction::Listen { feed: 0 }
    );
    assert_eq!(c.get_account_data(&a, None), Ok(numbered(2)));
    // a second time there is nothing to do
    assert_eq!(
        c.subscribe_account(&a, SubscribeEvent::Begin),
        SubscribeAction::Finish(Ok(()))
    );
    assert_eq!(c.get_account_data(&a, None), Ok(numbered(2)));
}

#[test]
fn accounts_are_followed_separately() {
    let mut c = client();
    c.subscribe_account(&key(1), SubscribeEvent::Fetched(Ok(numbered(1))));
    c.subscribe_account(&key(2), SubscribeEvent::Fetched(Ok(numbered(2))));
    c.subscribe_account(&key(2), SubscribeEvent::Updated { feed: 1, user: numbered(3) });
    assert_eq!(c.get_account_data(&key(1), None), Ok(numbered(1)));
    assert_eq!(c.get_account_data(&key(2), None), Ok(numbered(3)));
    assert!(!c.backend().is_cached(&key(3)));
    assert_eq!(
        c.subscribe_account(
            &key(3),
            SubscribeEvent::Updated { feed: 0, user: numbered(4) }
        ),
        SubscribeAction::Close
    );
    assert!(!c.backend().is_cached(&key(3)));
}

#[test]
fn a_replaced_feed_is_closed() {
    let mut c = client();
    let a = key(1);
    c.subscribe_account(&a, SubscribeEvent::Fetched(Ok(numbered(1))));
    assert_eq!(
        c.subscribe_account(&a, SubscribeEvent::Fetched(Ok(numbered(2)))),
        SubscribeAction::OpenStream { feed: 1 }
    );
    assert_eq!(
        c.subscribe_account(&a, SubscribeEvent::Updated { feed: 0, user: numbered(3) }),
        SubscribeAction::Close
    );
    assert_eq!(c.get_account_data(&a, None), Ok(numbered(2)));
}

#[test]
fn failures_end_the_subscription() {
    let mut c = client();
    let a = key(1);
    assert_eq!(
        c.subscribe_account(&a, SubscribeEvent::Fetched(Err(SdkError::InvalidAccount))),
        SubscribeAction::Finish(Err(SdkError::InvalidAccount))
    );
    assert!(!c.backend().is_cached(&a));
    c.subscribe_account(&a, SubscribeEvent::Fetched(Ok(numbered(1))));
    let refused = SubscribeEvent::Opened { feed: 0, result: Err("refused".to_string()) };
    assert_eq!(
        c.subscribe_account(&a, refused),
        SubscribeAction::Finish(Err(SdkError::Ws("refused".to_string())))
    );
    // it can be tried again
    assert!(!c.backend().is_cached(&a));
    assert_eq!(c.subscribe_account(&a, SubscribeEvent::Begin), SubscribeAction::Fetch);
    assert_eq!(
        c.subscribe_account(&a, SubscribeEvent::Fetched(Ok(numbered(2)))),
        SubscribeAction::OpenStream { feed: 1 }
    );
    // what is left of the first feed changes nothing
    assert_eq!(
        c.subscribe_account(&a, SubscribeEvent::Updated { feed: 0, user: numbered(3) }),
        SubscribeAction::Close
    );
    assert_eq!(
        c.subscribe_account(&a, SubscribeEvent::Opened { feed: 1, result: Ok(()) }),
        SubscribeAction::Listen { feed: 1 }
    );
    assert_eq!(c.get_account_data(&a, None), Ok(numbered(2)));
}

#[test]
fn a_failed_stream_leaves_other_accounts_alone() {
    let mut c = client();
    c.subscribe_account(&key(1), SubscribeEvent::Fetched(Ok(numbered(1))));
    c.subscribe_account(&key(2), SubscribeEvent::Fetched(Ok(numbered(2))));
    let refused = SubscribeEvent::Opened { feed: 1, result: Err("refused".to_string()) };
    c.subscribe_account(&key(2), refused);
    assert!(!c.backend().is_cached(&key(2)));
    assert_eq!(c.get_account_data(&key(1), None), Ok(numbered(1)));
}

#[test]
fn websocket_address_follows_the_endpoint() {
    assert_eq!(
        checked_ws_url("https://api.devnet.solana.com"),
        Some("wss://api.devnet.solana.com".to_string())
    );
    assert_eq!(checked_ws_url("http://localhost:8899/"), Some("ws://localhost:8899/".to_string()));
    assert_eq!(checked_ws_url("https://"), Some("wss://".to_string()));
    assert_eq!(checked_ws_url("http://https://"), Some("ws://https://".to_string()));
    assert_eq!(checked_ws_url("http:/"), None);
    assert_eq!(checked_ws_url("ftp://host"), None);
    assert_eq!(checked_ws_url(""), None);
    assert_eq!(checked_ws_url("https://h\u{f6}st/\u{20ac}"), Some("wss://h\u{f6}st/\u{20ac}".to_string()));
}

#[test]
fn backend_keeps_both_addresses() {
    let backend = DriftClientBackend::new("http://localhost:8899");
    assert_eq!(backend.rpc_url(), "http://localhost:8899");
    assert_eq!(backend.ws_url(), "ws://localhost:8899");
}

#[test]
fn subscriptions_ask_for_confirmed_compressed_data() {
    let config = DriftClientBackend::rpc_config();
    assert_eq!(config.encoding, Some(AccountEncoding::Base64Zstd));
    assert_eq!(config.commitment, Some(Commitment::Confirmed));
    assert_eq!(config.data_slice, None);
    assert_eq!(config.min_context_slot, None);
}
