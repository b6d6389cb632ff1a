use drift_sdk::accounts::BaseAccounts;
use drift_sdk::builder::{Encoding, TransactionBuilder};
use drift_sdk::client::{DriftClient, DriftClientBackend};
use drift_sdk::constants::{
    program_id, state_account, MarketTable, PerpMarketConfig, SpotMarketConfig,
};
use drift_sdk::orders::{InstructionArgs, ModifyOrderParams, OrderParams};
use drift_sdk::pubkey::Pubkey;
use drift_sdk::remaining::AccountMeta;
use drift_sdk::transaction::{check_compiles, RawInstruction};
use drift_sdk::types::{Context, MarketId, MarketType, PositionDirection, SdkError};
use drift_sdk::user::User;
use drift_sdk::wallet::Wallet;
use solana_sdk::signer::Signer;
use solana_sdk::transaction::Transaction;

const KEYPAIR: &str =
    "49W385L4rePHy6PAaQUovbD2aacgN4HsKXSMeUzRg4fmwXszN91JuMFrQRj3vMDpZuRF3ZknQBuRBoWQJEfXstMw";

fn key(n: u8) -> Pubkey {
    Pubkey { bytes: [n; 32] }
}

fn numbered(n: u16) -> Pubkey {
    let mut bytes = [9u8; 32];
    bytes[0] = (n % 256) as u8;
    bytes[1] = (n / 256) as u8;
    Pubkey { bytes }
}

fn table() -> MarketTable {
    MarketTable {
        dev_spot: vec![SpotMarketConfig { market_index: 0, account: key(50), oracle: key(100) }],
        dev_perp: vec![PerpMarketConfig { market_index: 2, account: key(30), oracle: key(90) }],
        main_spot: vec![],
        main_perp: vec![],
    }
}

fn nobody() -> User {
    User { orders: Vec::new(), spot_positions: Vec::new(), perp_positions: Vec::new() }
}

fn wallet() -> Wallet {
    Wallet::from_seed_bs58(Context::Dev, KEYPAIR)
}

fn meta(n: u8) -> AccountMeta {
    AccountMeta { pubkey: key(n), is_signer: false, is_writable: false }
}

fn order() -> OrderParams {
    OrderParams {
        slot: 4,
        market_index: 2,
        market_type: MarketType::Perp,
        direction: PositionDirection::Short,
        base_asset_amount: 11,
        price: 12,
        max_ts: Some(13),
        trigger_price: Some(14),
        oracle_price_offset: Some(-15),
        auction_duration: Some(16),
        auction_start_price: Some(17),
        auction_end_price: None,
    }
}

fn place(w: &Wallet) -> BaseAccounts {
    BaseAccounts::PlaceOrder { state: state_account(), authority: w.authority(), user: *w.user() }
}

fn cancel(w: &Wallet) -> BaseAccounts {
    BaseAccounts::CancelOrder { state: state_account(), authority: w.authority(), user: *w.user() }
}

fn encoding(w: &Wallet, data: &[u8]) -> Encoding {
    Encoding {
        base: vec![
            AccountMeta { pubkey: state_account(), is_signer: false, is_writable: false },
            AccountMeta { pubkey: *w.user(), is_signer: false, is_writable: true },
            AccountMeta { pubkey: w.authority(), is_signer: true, is_writable: false },
        ],
        data: data.to_vec(),
    }
}

#[test]
fn place_orders_reads_the_orders_markets() {
    let (w, u, t) = (wallet(), nobody(), table());
    let builder = TransactionBuilder::new(&w, &u, &t);
    assert!(builder.instructions().is_empty());
    assert!(builder.supports(&[MarketId::new(2, MarketType::Perp)]));
    let builder = builder.place_orders(vec![order()]);
    let ixs = builder.instructions();
    assert_eq!(ixs.len(), 1);
    assert_eq!(ixs[0].program_id, program_id());
    assert_eq!(ixs[0].base, place(&w));
    assert_eq!(ixs[0].remaining, vec![meta(90), meta(100), meta(50), meta(30)]);
    assert_eq!(ixs[0].args, InstructionArgs::PlaceOrders { params: vec![order()] });
}

#[test]
fn cancellations_follow_in_order() {
    let (w, u, t) = (wallet(), nobody(), table());
    let builder = TransactionBuilder::new(&w, &u, &t)
        .cancel_all_orders()
        .cancel_orders((2, MarketType::Perp), Some(PositionDirection::Long))
        .cancel_orders_by_id(vec![7, 3]);
    let ixs = builder.instructions();
    assert_eq!(ixs.len(), 3);
    for ix in ixs.iter() {
        assert_eq!(ix.program_id, program_id());
        assert_eq!(ix.base, cancel(&w));
    }
    assert_eq!(
        ixs[0].args,
        InstructionArgs::CancelOrders { market_index: None, market_type: None, direction: None }
    );
    assert_eq!(ixs[0].remaining, vec![meta(100), meta(50)]);
    assert_eq!(
        ixs[1].args,
        InstructionArgs::CancelOrders {
            market_index: Some(2),
            market_type: Some(MarketType::Perp),
            direction: Some(PositionDirection::Long),
        }
    );
    assert_eq!(ixs[1].remaining, vec![meta(90), meta(100), meta(50), meta(30)]);
    assert_eq!(ixs[2].args, InstructionArgs::CancelOrdersByIds { order_ids: vec![7, 3] });
    assert_eq!(ixs[2].remaining, vec![meta(100), meta(50)]);
}

#[test]
fn each_modification_is_an_instruction() {
    let (w, u, t) = (wallet(), nobody(), table());
    let mut second = order();
    second.direction = PositionDirection::Long;
    second.max_ts = None;
    let builder =
        TransactionBuilder::new(&w, &u, &t).modify_orders(vec![(21, order()), (22, second)]);
    let ixs = builder.instructions();
    assert_eq!(ixs.len(), 2);
    assert_eq!(ixs[0].base, place(&w));
    assert_eq!(ixs[0].remaining, vec![meta(100), meta(50)]);
    let expected = ModifyOrderParams {
        direction: Some(PositionDirection::Short),
        base_asset_amount: Some(11),
        price: Some(12),
        max_ts: Some(13),
        trigger_price: Some(14),
        oracle_price_offset: Some(-15),
        auction_duration: Some(16),
        auction_start_price: Some(17),
        auction_end_price: None,
    };
    assert_eq!(
        ixs[0].args,
        InstructionArgs::ModifyOrder { order_id: Some(21), modify_order_params: expected }
    );
    assert_eq!(
        ixs[1].args,
        InstructionArgs::ModifyOrder {
            order_id: Some(22),
            modify_order_params: ModifyOrderParams {
                direction: Some(PositionDirection::Long),
                max_ts: None,
                ..expected
            },
        }
    );
}

#[test]
fn modifying_in_two_calls_is_modifying_in_one() {
    let (w, u, t) = (wallet(), nobody(), table());
    let once =
        TransactionBuilder::new(&w, &u, &t).modify_orders(vec![(1, order()), (2, order())]);
    let twice = TransactionBuilder::new(&w, &u, &t)
        .modify_orders(vec![(1, order())])
        .modify_orders(vec![(2, order())]);
    assert_eq!(once.instructions(), twice.instructions());
    let none = TransactionBuilder::new(&w, &u, &t).modify_orders(vec![]);
    assert!(none.instructions().is_empty());
}

#[test]
fn a_modification_does_not_depend_on_the_market() {
    let (w, u, t) = (wallet(), nobody(), table());
    let mut unknown = order();
    unknown.slot = 9;
    unknown.market_index = 99;
    unknown.market_type = MarketType::Spot;
    let known = TransactionBuilder::new(&w, &u, &t).modify_orders(vec![(1, order())]);
    let other = TransactionBuilder::new(&w, &u, &t).modify_orders(vec![(1, unknown)]);
    assert_eq!(known.instructions(), other.instructions());
    assert_eq!(other.instructions()[0].remaining, vec![meta(100), meta(50)]);
}

fn built(w: &Wallet) -> Transaction {
    let (u, t) = (nobody(), table());
    TransactionBuilder::new(w, &u, &t)
        .cancel_all_orders()
        .place_orders(vec![order()])
        .build(&vec![encoding(w, &[1, 2]), encoding(w, &[3])])
}

#[test]
fn build_makes_one_transaction_that_the_authority_pays() {
    let w = wallet();
    let tx = built(&w);
    let message = &tx.message;
    assert_eq!(message.account_keys[0].to_bytes(), w.authority().bytes);
    assert_eq!(message.header.num_required_signatures, 1);
    assert_eq!(tx.signatures.len(), 1);
    assert_eq!(tx.signatures[0].as_ref(), &[0u8; 64][..]);
    assert_eq!(message.recent_blockhash.to_bytes(), [0; 32]);
    assert_eq!(message.instructions.len(), 2);
    assert_eq!(message.instructions[0].data, vec![1, 2]);
    assert_eq!(message.instructions[1].data, vec![3]);
    // its own accounts, then those that follow
    let mut listed: Vec<[u8; 32]> = Vec::new();
    for index in message.instructions[1].accounts.iter() {
        listed.push(message.account_keys[*index as usize].to_bytes());
    }
    assert_eq!(
        listed,
        vec![
            state_account().bytes,
            w.user().bytes,
            w.authority().bytes,
            [90; 32],
            [100; 32],
            [50; 32],
            [30; 32],
        ]
    );
    for ix in message.instructions.iter() {
        let program = message.account_keys[ix.program_id_index as usize];
        assert_eq!(program.to_bytes(), program_id().bytes);
    }
}

#[test]
fn keys_are_grouped_by_their_use() {
    let (w, u, t) = (wallet(), nobody(), table());
    let mut wide = encoding(&w, &[1]);
    let all = [
        (9, true, false),
        (8, true, false),
        (7, true, true),
        (6, true, true),
        (5, false, true),
        (4, false, true),
    ];
    for (n, is_signer, is_writable) in all {
        wide.base.push(AccountMeta { pubkey: key(n), is_signer, is_writable });
    }
    // one use to write is enough
    wide.base.push(AccountMeta { pubkey: key(7), is_signer: false, is_writable: false });
    wide.base.push(AccountMeta { pubkey: key(3), is_signer: false, is_writable: false });
    let tx = TransactionBuilder::new(&w, &u, &t).cancel_all_orders().build(&vec![wide]);
    let header = &tx.message.header;
    assert_eq!(header.num_required_signatures, 5);
    assert_eq!(header.num_readonly_signed_accounts, 2);
    let keys: Vec<[u8; 32]> = tx.message.account_keys.iter().map(|k| k.to_bytes()).collect();
    // the payer, those that sign and are written, those that sign and are read
    assert_eq!(keys[0], w.authority().bytes);
    assert_eq!(&keys[1..5], &[[6; 32], [7; 32], [8; 32], [9; 32]][..]);
    // then those that are written
    let mut written = vec![[4; 32], [5; 32], w.user().bytes];
    written.sort();
    assert_eq!(&keys[5..8], &written[..]);
    // then those that are read, with the program, the state and the quote market
    let mut read =
        vec![[3; 32], [50; 32], [100; 32], program_id().bytes, state_account().bytes];
    read.sort();
    assert_eq!(&keys[8..], &read[..]);
    assert_eq!(header.num_readonly_unsigned_accounts, 5);
    for i in 0..keys.len() {
        assert_eq!(tx.message.is_signer(i), i < 5);
    }
}

#[test]
fn a_chain_may_be_empty() {
    let (w, u, t) = (wallet(), nobody(), table());
    let tx = TransactionBuilder::new(&w, &u, &t).build(&vec![]);
    assert!(tx.message.instructions.is_empty());
    assert_eq!(tx.message.account_keys.len(), 1);
    assert_eq!(tx.message.account_keys[0].to_bytes(), w.authority().bytes);
    assert_eq!(tx.message.header.num_required_signatures, 1);
    assert_eq!(tx.signatures.len(), 1);
    assert!(backend().checked_sign_and_send(&w, tx, Ok([8; 32])).unwrap().is_ok());
}

#[test]
fn signatures_of_others_are_kept_over_the_same_blockhash() {
    let (w, u, t) = (wallet(), nobody(), table());
    let other = solana_sdk::signature::keypair_from_seed(&[1; 32]).unwrap();
    let mut joint = encoding(&w, &[1]);
    let pubkey = Pubkey { bytes: other.pubkey().to_bytes() };
    joint.base.push(AccountMeta { pubkey, is_signer: true, is_writable: false });
    let mut tx = TransactionBuilder::new(&w, &u, &t).cancel_all_orders().build(&vec![joint]);
    tx.partial_sign(&[&other], solana_sdk::hash::Hash::new_from_array([8; 32]));
    let first = tx.signatures[1];
    // another blockhash drops it
    assert!(backend().checked_sign_and_send(&w, tx.clone(), Ok([9; 32])).is_none());
    let before = tx.message.clone();
    let signed = backend().checked_sign_and_send(&w, tx, Ok([8; 32])).unwrap().unwrap();
    assert_eq!(signed.signatures[1], first);
    assert_eq!(signed.message, before);
    assert!(signed.verify().is_ok());
}

#[test]
fn build_needs_an_encoding_for_each_instruction() {
    let (w, u, t) = (wallet(), nobody(), table());
    let encodings = vec![encoding(&w, &[1])];
    assert!(TransactionBuilder::new(&w, &u, &t).checked_build(&encodings).is_none());
    let tx = TransactionBuilder::new(&w, &u, &t).cancel_all_orders().checked_build(&encodings);
    assert_eq!(tx.unwrap().message.instructions.len(), 1);
}

fn raw(n: u16, is_signer: bool, is_writable: bool) -> Vec<RawInstruction> {
    let mut accounts: Vec<AccountMeta> = Vec::new();
    for i in 0..n {
        accounts.push(AccountMeta { pubkey: numbered(i), is_signer, is_writable });
    }
    vec![RawInstruction { program_id: key(1), accounts, data: vec![] }]
}

#[test]
fn a_transaction_holds_so_many_keys() {
    let payer = key(2);
    // the payer signs too
    assert!(check_compiles(&raw(254, true, false), &payer));
    assert!(!check_compiles(&raw(255, true, false), &payer));
    // the program is only read
    assert!(check_compiles(&raw(254, false, false), &payer));
    assert!(!check_compiles(&raw(255, false, false), &payer));
    assert!(check_compiles(&raw(300, false, true), &payer));
    // a key that is named twice counts once
    let mut twice = raw(254, true, false);
    let again = raw(254, false, false);
    twice.extend(again);
    assert!(check_compiles(&twice, &payer));
}

#[test]
fn a_transaction_with_too_many_signers_is_not_built() {
    let (w, u, t) = (wallet(), nobody(), table());
    let mut wide = encoding(&w, &[1]);
    for i in 0..255 {
        wide.base.push(AccountMeta { pubkey: numbered(i), is_signer: true, is_writable: false });
    }
    let builder = TransactionBuilder::new(&w, &u, &t).cancel_all_orders();
    assert!(builder.checked_build(&vec![wide]).is_none());
}

fn backend() -> DriftClientBackend {
    DriftClientBackend::new("https://api.devnet.solana.com")
}

#[test]
fn a_built_transaction_is_signed_by_the_authority() {
    let w = wallet();
    let signed = backend().sign_and_send(&w, built(&w), Ok([8; 32])).unwrap();
    assert_eq!(signed.message.recent_blockhash.to_bytes(), [8; 32]);
    assert!(signed.is_signed());
    assert!(signed.verify().is_ok());
    assert_eq!(signed.message.instructions, built(&w).message.instructions);
    let again = backend().checked_sign_and_send(&w, built(&w), Ok([8; 32])).unwrap().unwrap();
    assert_eq!(again, signed);
    let other = backend().checked_sign_and_send(&w, built(&w), Ok([9; 32])).unwrap().unwrap();
    assert_ne!(other.signatures, signed.signatures);
}

#[test]
fn a_transaction_of_another_wallet_is_not_signed() {
    let w = wallet();
    let other = Wallet::from_seed(Context::Dev, &[1; 32]).unwrap();
    assert!(backend().checked_sign_and_send(&other, built(&w), Ok([8; 32])).is_none());
    let client = DriftClient::new("https://api.devnet.solana.com");
    assert!(client.checked_sign_and_send(&other, built(&w), Ok([8; 32])).is_none());
}

#[test]
fn a_transaction_that_needs_a_second_signature_is_not_signed() {
    let (w, u, t) = (wallet(), nobody(), table());
    let mut joint = encoding(&w, &[1]);
    joint.base.push(AccountMeta { pubkey: key(7), is_signer: true, is_writable: false });
    let tx = TransactionBuilder::new(&w, &u, &t).cancel_all_orders().build(&vec![joint]);
    assert_eq!(tx.message.header.num_required_signatures, 2);
    assert_eq!(tx.message.account_keys[0].to_bytes(), w.authority().bytes);
    assert_eq!(tx.message.account_keys[1].to_bytes(), [7; 32]);
    assert!(backend().checked_sign_and_send(&w, tx, Ok([8; 32])).is_none());
}

#[test]
fn the_client_signs_as_its_backend_does() {
    let w = wallet();
    let client = DriftClient::new("https://api.devnet.solana.com");
    let signed = backend().sign_and_send(&w, built(&w), Ok([8; 32])).unwrap();
    assert_eq!(client.sign_and_send(&w, built(&w), Ok([8; 32])), Ok(signed.clone()));
    assert_eq!(client.checked_sign_and_send(&w, built(&w), Ok([8; 32])), Some(Ok(signed)));
    let failed = client.checked_sign_and_send(&w, built(&w), Err("down".to_string()));
    assert_eq!(failed, Some(Err(SdkError::Rpc("down".to_string()))));
    let mut tx = built(&w);
    tx.signatures.clear();
    assert!(client.checked_sign_and_send(&w, tx, Ok([8; 32])).is_none());
}

#[test]
fn malformed_transactions_are_not_signed() {
    let w = wallet();
    let mut tx = built(&w);
    tx.signatures.clear();
    assert!(backend().checked_sign_and_send(&w, tx, Ok([8; 32])).is_none());
    let mut tx = built(&w);
    tx.message.instructions[0].data = vec![0; 65536];
    assert!(backend().checked_sign_and_send(&w, tx, Ok([8; 32])).is_none());
    let mut tx = built(&w);
    tx.message.instructions[0].data = vec![0; 65535];
    assert!(backend().checked_sign_and_send(&w, tx, Ok([8; 32])).is_some());
}

#[test]
fn network_errors_on_sending_are_passed_on() {
    let w = wallet();
    let failed = backend().sign_and_send(&w, built(&w), Err("down".to_string()));
    assert_eq!(failed.unwrap_err(), SdkError::Rpc("down".to_string()));
    let failed = backend().checked_sign_and_send(&w, built(&w), Err("down".to_string()));
    assert_eq!(failed.unwrap().unwrap_err(), SdkError::Rpc("down".to_string()));
    assert_eq!(DriftClientBackend::sent(Ok([4; 64])), Ok([4; 64]));
    assert_eq!(
        DriftClientBackend::sent(Err("refused".to_string())),
        Err(SdkError::Rpc("refused".to_string()))
    );
}
