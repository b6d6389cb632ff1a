use drift_sdk::constants::{program_id, state_account};
use drift_sdk::pubkey::{Place, Pubkey};
use drift_sdk::types::{Context, SdkError};
use drift_sdk::wallet::{load_keypair, Wallet};
use solana_sdk::signature::Keypair;
use solana_sdk::signer::Signer;
use std::str::FromStr;

const SECRET: &str = "9d61b19deffd5a60ba844af492ec2cc44449c5697b326919703bac031cae7f60";
const AUTHORITY: &str = "FVen3X669xLzsi6N2V91DoiyzHzg1uAgqiT8jZ9nS96Z";
const KEYPAIR: &str =
    "49W385L4rePHy6PAaQUovbD2aacgN4HsKXSMeUzRg4fmwXszN91JuMFrQRj3vMDpZuRF3ZknQBuRBoWQJEfXstMw";
const USER_0: &str = "CTRAxvrhjpTtir67wcXt6tsRmorqZkXjh6hkLA2mEhCz";
const USER_1: &str = "G4kVooCwSR4KpKqkbZY49tSNrgRAoJvdxR6BwHnfdtgS";
const USER_258: &str = "8BtEpaUJVeX4QdJ8dJfnA9cUDZLT7DSLe3Vv6ZrVqxyu";
const STATS: &str = "8UxfckHV8mEq7VHrhJazb5d135udx98nqAcdmbyjqC5J";

fn key(text: &str) -> Pubkey {
    Pubkey { bytes: solana_sdk::pubkey::Pubkey::from_str(text).unwrap().to_bytes() }
}

fn seed() -> Vec<u8> {
    hex::decode(SECRET).unwrap()
}

#[test]
fn program_addresses_are_those_on_chain() {
    assert_eq!(program_id(), key("dRiftyHA39MWEi3m9aunc5MzRF1JYuBsbn6VPcn33UH"));
    assert_eq!(state_account(), key("5zpq7DvB6UdFFvpmBPspGPNfUGoBRRCE2HHg5u3gxcsN"));
    let program = solana_sdk::pubkey::Pubkey::from(program_id().bytes);
    let (state, _) =
        solana_sdk::pubkey::Pubkey::find_program_address(&[&b"drift_state"[..]], &program);
    assert_eq!(state_account().bytes, state.to_bytes());
}

#[test]
fn wallet_from_seed_has_derived_addresses() {
    let wallet = Wallet::from_seed(Context::Dev, &seed()).unwrap();
    assert_eq!(wallet.authority(), key(AUTHORITY));
    assert_eq!(*wallet.user(), key(USER_0));
    assert_eq!(*wallet.stats(), key(STATS));
    assert_eq!(wallet.sub_account_id(), 0);
    assert_eq!(wallet.context(), Context::Dev);
}

#[test]
fn only_the_first_bytes_of_a_seed_count() {
    let mut long = seed();
    long.push(7);
    let wallet = Wallet::checked_from_seed(Context::Main, &long).unwrap().unwrap();
    assert_eq!(wallet.authority(), key(AUTHORITY));
    assert_eq!(wallet.context(), Context::Main);
}

#[test]
fn short_seed_is_invalid() {
    let bytes = seed();
    assert_eq!(
        Wallet::from_seed(Context::Dev, &bytes[..31]).unwrap_err(),
        SdkError::InvalidSeed
    );
    assert_eq!(
        Wallet::checked_from_seed(Context::Dev, &[]).unwrap().unwrap_err(),
        SdkError::InvalidSeed
    );
}

#[test]
fn wallet_from_base58() {
    let wallet = Wallet::from_seed_bs58(Context::Dev, KEYPAIR);
    assert_eq!(wallet.authority(), key(AUTHORITY));
    assert_eq!(*wallet.user(), key(USER_0));
    let checked = Wallet::checked_from_seed_bs58(Context::Dev, KEYPAIR).unwrap();
    assert_eq!(checked.authority(), wallet.authority());
}

#[test]
fn invalid_base58_keys_are_refused() {
    // not base58
    assert!(Wallet::checked_from_seed_bs58(Context::Dev, "0OIl").is_none());
    // one byte short
    assert!(Wallet::checked_from_seed_bs58(
        Context::Dev,
        "iMAznqj7GGUQaqyYasFi9CnfsfSgfMb4Hs9kqUxtSkgBYTxbF3nk8JsAPNJt4DsepDk4JPcD3vZfhShAo9H4Nc"
    )
    .is_none());
    // the public half is not a curve point
    assert!(Wallet::checked_from_seed_bs58(
        Context::Dev,
        "49W385L4rePHy6PAaQUovbD2aacgN4HsKXSMeUzRg4fmhB32ccNPY4uHM6sdusci8xBiaHteoBwYWpg3a58jtMb5"
    )
    .is_none());
}

#[test]
fn sub_accounts_have_their_own_user_address() {
    let authority = Keypair::from_base58_string(KEYPAIR);
    let wallet = Wallet::with_sub_account(Context::Dev, authority, 1);
    assert_eq!(*wallet.user(), key(USER_1));
    assert_eq!(*wallet.stats(), key(STATS));
    assert_eq!(wallet.sub_account_id(), 1);
    let authority = Keypair::from_base58_string(KEYPAIR);
    let wallet = Wallet::checked_with_sub_account(Context::Dev, authority, 258).unwrap();
    assert_eq!(*wallet.user(), key(USER_258));
}

#[test]
fn addresses_are_derived_from_the_account() {
    let program = program_id();
    assert_eq!(Wallet::derive_user_account(&key(AUTHORITY), 258, &program), key(USER_258));
    assert_eq!(Wallet::derive_stats_account(&key(AUTHORITY), &program), key(STATS));
    assert_eq!(
        Wallet::checked_derive_user_account(&key(AUTHORITY), 1, &program),
        Some(key(USER_1))
    );
    assert_eq!(
        Wallet::checked_derive_stats_account(&key(AUTHORITY), &program),
        Some(key(STATS))
    );
    let expected = solana_sdk::pubkey::Pubkey::find_program_address(
        &[&b"user"[..], &key(USER_0).bytes[..], &513u16.to_le_bytes()[..]],
        &solana_sdk::pubkey::Pubkey::from(program.bytes),
    )
    .0;
    assert_eq!(
        Wallet::derive_user_account(&key(USER_0), 513, &program).bytes,
        expected.to_bytes()
    );
}

#[test]
fn a_key_is_loaded_from_a_file_or_the_text() {
    let from_text = load_keypair(KEYPAIR, None).unwrap();
    assert_eq!(from_text.to_base58_string(), KEYPAIR);
    // the file comes first
    let other = Keypair::new();
    let text = other.to_base58_string();
    let from_file = load_keypair(KEYPAIR, Some(other)).unwrap();
    assert_eq!(from_file.to_base58_string(), text);
    assert_eq!(load_keypair("0OIl", None).unwrap_err(), SdkError::InvalidSeed);
    assert_eq!(load_keypair("abc", None).unwrap_err(), SdkError::InvalidSeed);
}

#[test]
fn wallet_from_a_path_or_a_key() {
    let wallet = Wallet::try_from_str(Context::Main, KEYPAIR, None).unwrap();
    assert_eq!(*wallet.user(), key(USER_0));
    assert_eq!(wallet.context(), Context::Main);
    let same = Wallet::from_seed_bs58(Context::Main, KEYPAIR);
    assert_eq!(wallet.authority(), same.authority());
    let file = Keypair::from_base58_string(KEYPAIR);
    let wallet = Wallet::checked_try_from_str(Context::Dev, "some/key.json", Some(file));
    assert_eq!(wallet.unwrap().unwrap().authority(), key(AUTHORITY));
    assert_eq!(
        Wallet::try_from_str(Context::Main, "no/such/file", None).unwrap_err(),
        SdkError::InvalidSeed
    );
    assert_eq!(
        Wallet::checked_try_from_str(Context::Main, "", None).unwrap().unwrap_err(),
        SdkError::InvalidSeed
    );
}

#[test]
fn keys_survive_being_written_down() {
    for n in 0..8 {
        let keypair = solana_sdk::signature::keypair_from_seed(&[n; 32]).unwrap();
        let text = keypair.to_base58_string();
        let expected = keypair.pubkey().to_bytes();
        let wallet = Wallet::from_seed_bs58(Context::Dev, &text);
        assert_eq!(wallet.authority().bytes, expected);
        let wallet = Wallet::checked_from_seed_bs58(Context::Dev, &text).unwrap();
        assert_eq!(wallet.authority().bytes, expected);
        let wallet = Wallet::try_from_str(Context::Dev, &text, None).unwrap();
        assert_eq!(wallet.authority().bytes, expected);
    }
}

#[test]
fn clones_are_the_same_wallet() {
    let wallet = Wallet::from_seed_bs58(Context::Dev, KEYPAIR);
    let other = wallet.clone();
    assert_eq!(other.authority(), wallet.authority());
    assert_eq!(other.user(), wallet.user());
    assert_eq!(other.stats(), wallet.stats());
}

#[test]
fn addresses_are_ordered_by_their_first_difference() {
    let mut a = [5u8; 32];
    let mut b = [5u8; 32];
    assert_eq!(Pubkey { bytes: a }.place(&Pubkey { bytes: b }), Place::Same);
    b[31] = 6;
    assert_eq!(Pubkey { bytes: a }.place(&Pubkey { bytes: b }), Place::Before);
    a[0] = 200;
    assert_eq!(Pubkey { bytes: a }.place(&Pubkey { bytes: b }), Place::After);
    assert!(!Pubkey { bytes: a }.same(&Pubkey { bytes: b }));
}
