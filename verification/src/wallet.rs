//! Wallets: a signing key and the account addresses that the program derives from it.
use crate::constants::{program_id, PROGRAM_ID};
use crate::pubkey::{lemma_pubkey_ext, Pubkey};
use crate::solana::{
    base58_decode, base58_decoded, base58_encoded, ed25519_public_key, is_base58_keypair,
    is_ed25519_point, is_keypair, keypair_bytes, keypair_from_base58_string, keypair_from_bytes, keypair_from_seed,
    keypair_pubkey, program_address, try_find_program_address,
};
use crate::types::{Context, SdkError, SdkResult};
use solana_sdk::signature::Keypair;
use std::sync::Arc;
use vstd::prelude::*;

verus! {

/// The seed of user account addresses: `user`.
pub const USER_SEED: [u8; 4] = [117, 115, 101, 114];

/// The seed of stats account addresses: `user_stats`.
pub const STATS_SEED: [u8; 10] = [117, 115, 101, 114, 95, 115, 116, 97, 116, 115];

/// The two bytes of a sub-account index, the low one first.
pub open spec fn sub_account_seed(sub_account_id: u16) -> Seq<u8> {
    seq![(sub_account_id % 256) as u8, (sub_account_id / 256) as u8]
}

/// The seeds of a user account address.
pub open spec fn user_seeds(account: Seq<u8>, sub_account_id: u16) -> Seq<Seq<u8>> {
    seq![USER_SEED@, account, sub_account_seed(sub_account_id)]
}

/// The seeds of a stats account address.
pub open spec fn stats_seeds(account: Seq<u8>) -> Seq<Seq<u8>> {
    seq![STATS_SEED@, account]
}

/// The address that a program derives from seeds, without its bump seed.
pub open spec fn derived(seeds: Seq<Seq<u8>>, program: Seq<u8>) -> Option<Seq<u8>> {
    match program_address(seeds, program) {
        Some((address, _)) => Some(address),
        None => None,
    }
}

/// The address of the user account of `account` and `sub_account_id`.
pub open spec fn user_address(account: Seq<u8>, sub_account_id: u16, program: Seq<u8>) -> Option<
    Seq<u8>,
> {
    derived(user_seeds(account, sub_account_id), program)
}

/// The address of the stats account of `account`.
pub open spec fn stats_address(account: Seq<u8>, program: Seq<u8>) -> Option<Seq<u8>> {
    derived(stats_seeds(account), program)
}

/// The program derives both addresses of a wallet.
pub open spec fn derivable(authority: Seq<u8>, sub_account_id: u16) -> bool {
    &&& user_address(authority, sub_account_id, PROGRAM_ID@) is Some
    &&& stats_address(authority, PROGRAM_ID@) is Some
}

/// The public key of a key pair, given the bytes of the pair.
pub open spec fn public_half(keypair: Seq<u8>) -> Seq<u8> {
    keypair.subrange(32, 64)
}

/// The bytes of the key that a string stands for: the key in the file that it names, where there is
/// one, and else the key that it is the base58 form of.
pub open spec fn loaded_key(text: Seq<char>, file: Option<Keypair>) -> Option<Seq<u8>> {
    match file {
        Some(keypair) => Some(keypair_bytes(keypair)),
        None => if is_base58_keypair(text) {
            base58_decoded(text)
        } else {
            None
        },
    }
}

/// What a wallet holds.
pub struct WalletData {
    /// The bytes of the signing key pair.
    pub keypair: Seq<u8>,
    /// The address of the authority.
    pub authority: Pubkey,
    /// The address of the user account.
    pub user: Pubkey,
    /// The address of the stats account.
    pub stats: Pubkey,
    pub sub_account_id: u16,
    pub context: Context,
}

/// The addresses of a wallet are those that belong to its key pair and sub-account.
pub open spec fn is_wallet(data: WalletData) -> bool {
    &&& data.authority@ == public_half(data.keypair)
    &&& user_address(data.authority@, data.sub_account_id, PROGRAM_ID@) == Some(data.user@)
    &&& stats_address(data.authority@, PROGRAM_ID@) == Some(data.stats@)
}

/// `data` is the wallet of a key pair, a sub-account and a deployment.
pub open spec fn is_wallet_of(
    data: WalletData,
    keypair: Seq<u8>,
    sub_account_id: u16,
    context: Context,
) -> bool {
    &&& is_wallet(data)
    &&& data.keypair == keypair
    &&& data.sub_account_id == sub_account_id
    &&& data.context == context
}

/// The wallet of a key pair, a sub-account and a deployment is one wallet.
pub proof fn wallet_is_determined(a: WalletData, b: WalletData)
    requires
        is_wallet(a),
        is_wallet_of(b, a.keypair, a.sub_account_id, a.context),
    ensures
        a == b,
{
    broadcast use lemma_pubkey_ext;

    assert(a.authority@ == b.authority@);
    assert(a.user@ == b.user@);
    assert(a.stats@ == b.stats@);
}

/// The user accounts of different sub-accounts are derived from different seeds.
pub proof fn sub_account_seeds_differ(account: Seq<u8>, a: u16, b: u16)
    requires
        a != b,
    ensures
        user_seeds(account, a) != user_seeds(account, b),
{
    let sa = sub_account_seed(a);
    let sb = sub_account_seed(b);
    assert(user_seeds(account, a)[2] == sa);
    assert(user_seeds(account, b)[2] == sb);
    if sa == sb {
        assert(sa[0] == sb[0] && sa[1] == sb[1]);
        assert(a % 256 == b % 256);
        assert(a / 256 == b / 256);
    }
}

/// User and stats accounts are derived from different seeds.
pub proof fn user_and_stats_seeds_differ(account: Seq<u8>, other: Seq<u8>, sub_account_id: u16)
    ensures
        user_seeds(account, sub_account_id) != stats_seeds(other),
{
    assert(user_seeds(account, sub_account_id).len() != stats_seeds(other).len());
}

/// The address of a user account is what the program derives from the word `user`, the authority and
/// the two bytes of the sub-account index, the low one first; that of a stats account is what it
/// derives from the word `user_stats` and the authority.
pub proof fn addresses_are_derived_from_authority_and_sub_account(
    account: Seq<u8>,
    sub_account_id: u16,
    low: u8,
    high: u8,
    program: Seq<u8>,
)
    requires
        sub_account_id == low + 256 * high,
    ensures
        ({
            let found = program_address(
                seq![seq![117u8, 115, 101, 114], account, seq![low, high]],
                program,
            );
            match user_address(account, sub_account_id, program) {
                Some(address) => found is Some && (found->0).0 == address,
                None => found is None,
            }
        }),
        ({
            let found = program_address(
                seq![seq![117u8, 115, 101, 114, 95, 115, 116, 97, 116, 115], account],
                program,
            );
            match stats_address(account, program) {
                Some(address) => found is Some && (found->0).0 == address,
                None => found is None,
            }
        }),
        derivable(account, sub_account_id) <==> user_address(
            account,
            sub_account_id,
            PROGRAM_ID@,
        ) is Some && stats_address(account, PROGRAM_ID@) is Some,
{
    assert(USER_SEED@ =~= seq![117u8, 115, 101, 114]);
    assert(STATS_SEED@ =~= seq![117u8, 115, 101, 114, 95, 115, 116, 97, 116, 115]);
    assert(sub_account_seed(sub_account_id) =~= seq![low, high]);
    assert(user_seeds(account, sub_account_id) =~= seq![
        seq![117u8, 115, 101, 114],
        account,
        seq![low, high],
    ]);
    assert(stats_seeds(account) =~= seq![
        seq![117u8, 115, 101, 114, 95, 115, 116, 97, 116, 115],
        account,
    ]);
}

/// The wallet of a key pair, a sub-account and a deployment keeps all three; its authority is the
/// public key of the pair, bytes 32 to 63, and its addresses are those of that authority and
/// sub-account under the program.
pub proof fn wallets_keep_what_they_were_made_of(
    data: WalletData,
    keypair: Seq<u8>,
    sub_account_id: u16,
    context: Context,
)
    requires
        is_wallet_of(data, keypair, sub_account_id, context),
    ensures
        data.keypair == keypair,
        data.sub_account_id == sub_account_id,
        data.context == context,
        data.authority@ == keypair.subrange(32, 64),
        user_address(keypair.subrange(32, 64), sub_account_id, PROGRAM_ID@) == Some(data.user@),
        stats_address(keypair.subrange(32, 64), PROGRAM_ID@) == Some(data.stats@),
{
}

/// A key in a file is taken whatever the string says; without one, the string is the key that it is
/// the base58 form of, and stands for no key where it is none.
pub proof fn files_come_before_encoded_keys(text: Seq<char>, file: Option<Keypair>)
    ensures
        file matches Some(keypair) ==> loaded_key(text, file) == Some(keypair_bytes(keypair)),
        file is None && is_base58_keypair(text) ==> loaded_key(text, file) == base58_decoded(text)
            && base58_decoded(text) is Some,
        file is None && !is_base58_keypair(text) ==> loaded_key(text, file) is None,
        is_base58_keypair(text) <==> {
            &&& base58_decoded(text) is Some
            &&& base58_decoded(text)->0.len() == 64
            &&& is_ed25519_point(base58_decoded(text)->0.subrange(32, 64))
        },
{
}

/// Drift wallet
#[derive(Debug)]
pub struct Wallet {
    authority: Arc<Keypair>,
    user: Pubkey,
    stats: Pubkey,
    sub_account_id: u16,
    context: Context,
}

impl View for Wallet {
    type V = WalletData;

    closed spec fn view(&self) -> WalletData {
        WalletData {
            keypair: keypair_bytes(*self.authority),
            authority: choose|key: Pubkey| key@ == public_half(keypair_bytes(*self.authority)),
            user: self.user,
            stats: self.stats,
            sub_account_id: self.sub_account_id,
            context: self.context,
        }
    }
}

impl Clone for Wallet {
    fn clone(&self) -> (r: Wallet)
        ensures
            r@ == self@,
    {
        proof {
            use_type_invariant(self);
        }
        Wallet {
            authority: self.authority.clone(),
            user: self.user,
            stats: self.stats,
            sub_account_id: self.sub_account_id,
            context: self.context,
        }
    }
}

/// The signing key of a string that is either the path of a key file or the base58 key itself.
///
/// `file` - the key in the file at that path, where there is one
pub fn load_keypair(text: &str, file: Option<Keypair>) -> (r: SdkResult<Keypair>)
    ensures
        match (file, r) {
            (Some(k), Ok(p)) => p == k,
            (None, Ok(p)) => {
                &&& is_base58_keypair(text@)
                &&& base58_decoded(text@) == Some(keypair_bytes(p))
            },
            (None, Err(e)) => !is_base58_keypair(text@) && e == SdkError::InvalidSeed,
            (Some(_), Err(_)) => false,
        },
        forall|kp: Seq<u8>| #[trigger]
            base58_encoded(kp) == text@ && is_keypair(kp) && file is None ==> (r matches Ok(p)
                && keypair_bytes(p) == kp),
{
    match file {
        Some(keypair) => Ok(keypair),
        None => match base58_decode(text) {
            Some(bytes) => match keypair_from_bytes(&bytes) {
                Some(keypair) => Ok(keypair),
                None => Err(SdkError::InvalidSeed),
            },
            None => Err(SdkError::InvalidSeed),
        },
    }
}

impl Wallet {
    #[verifier::type_invariant]
    spec fn well_formed(self) -> bool {
        is_wallet(self@)
    }

    /// Init wallet from a string that could be either a file path or the encoded key, uses default
    /// sub-account.
    ///
    /// `file` - the key in the file at that path, where there is one
    pub fn try_from_str(context: Context, path_or_key: &str, file: Option<Keypair>) -> (r: SdkResult<
        Wallet,
    >)
        requires
            loaded_key(path_or_key@, file) matches Some(key) ==> derivable(public_half(key), 0),
        ensures
            match (loaded_key(path_or_key@, file), r) {
                (Some(key), Ok(wallet)) => is_wallet_of(wallet@, key, 0, context),
                (None, Err(e)) => e == SdkError::InvalidSeed,
                _ => false,
            },
            forall|kp: Seq<u8>| #[trigger]
                base58_encoded(kp) == path_or_key@ && is_keypair(kp) && file is None ==> (
                r matches Ok(wallet) && is_wallet_of(wallet@, kp, 0, context)),
    {
        match load_keypair(path_or_key, file) {
            Ok(authority) => Ok(Wallet::with_sub_account(context, authority, 0)),
            Err(e) => Err(e),
        }
    }

    /// `try_from_str` where the program derives the wallet's addresses, and `None` where it does
    /// not.
    pub fn checked_try_from_str(context: Context, path_or_key: &str, file: Option<Keypair>) -> (r:
        Option<SdkResult<Wallet>>)
        ensures
            match (loaded_key(path_or_key@, file), r) {
                (Some(key), Some(Ok(wallet))) => {
                    &&& derivable(public_half(key), 0)
                    &&& is_wallet_of(wallet@, key, 0, context)
                },
                (Some(key), None) => !derivable(public_half(key), 0),
                (None, Some(Err(e))) => e == SdkError::InvalidSeed,
                _ => false,
            },
            forall|kp: Seq<u8>| #[trigger]
                base58_encoded(kp) == path_or_key@ && is_keypair(kp) && file is None && derivable(
                    public_half(kp),
                    0,
                ) ==> (r matches Some(Ok(wallet)) && is_wallet_of(wallet@, kp, 0, context)),
    {
        match load_keypair(path_or_key, file) {
            Ok(authority) => {
                if Wallet::is_derivable(&authority, 0) {
                    Some(Wallet::try_from_str(context, path_or_key, Some(authority)))
                } else {
                    None
                }
            },
            Err(_) => Some(Wallet::try_from_str(context, path_or_key, None)),
        }
    }

    /// Init wallet from base58 encoded seed, uses default sub-account.
    ///
    /// The seed is a whole key pair, 64 bytes, in base58.
    pub fn from_seed_bs58(context: Context, seed: &str) -> (r: Wallet)
        requires
            is_base58_keypair(seed@),
            derivable(public_half(base58_decoded(seed@)->0), 0),
        ensures
            is_wallet_of(r@, base58_decoded(seed@)->0, 0, context),
            forall|kp: Seq<u8>| #[trigger]
                base58_encoded(kp) == seed@ ==> is_wallet_of(r@, kp, 0, context),
    {
        let authority: Keypair = keypair_from_base58_string(seed);
        Wallet::with_sub_account(context, authority, 0)
    }

    /// `from_seed_bs58` where the seed is valid and the program derives the wallet's addresses, and
    /// `None` elsewhere.
    pub fn checked_from_seed_bs58(context: Context, seed: &str) -> (r: Option<Wallet>)
        ensures
            r is Some <==> is_base58_keypair(seed@) && derivable(
                public_half(base58_decoded(seed@)->0),
                0,
            ),
            r matches Some(wallet) ==> is_wallet_of(
                wallet@,
                base58_decoded(seed@)->0,
                0,
                context,
            ),
            forall|kp: Seq<u8>| #[trigger]
                base58_encoded(kp) == seed@ && is_keypair(kp) && derivable(public_half(kp), 0) ==> (
                r matches Some(wallet) && is_wallet_of(wallet@, kp, 0, context)),
    {
        match base58_decode(seed) {
            Some(bytes) => match keypair_from_bytes(&bytes) {
                Some(authority) => {
                    if Wallet::is_derivable(&authority, 0) {
                        Some(Wallet::from_seed_bs58(context, seed))
                    } else {
                        None
                    }
                },
                None => None,
            },
            None => None,
        }
    }

    /// Init wallet from seed bytes, uses default sub-account.
    ///
    /// The secret key is the first 32 bytes of the seed; a shorter seed is invalid.
    pub fn from_seed(context: Context, seed: &[u8]) -> (r: SdkResult<Wallet>)
        requires
            seed@.len() >= 32 ==> derivable(ed25519_public_key(seed@.take(32)), 0),
        ensures
            match r {
                Ok(wallet) => seed@.len() >= 32 && is_wallet_of(
                    wallet@,
                    seed@.take(32) + ed25519_public_key(seed@.take(32)),
                    0,
                    context,
                ),
                Err(e) => seed@.len() < 32 && e == SdkError::InvalidSeed,
            },
    {
        match keypair_from_seed(seed) {
            Some(authority) => {
                assert(public_half(keypair_bytes(authority)) =~= ed25519_public_key(
                    seed@.take(32),
                ));
                Ok(Wallet::with_sub_account(context, authority, 0))
            },
            None => Err(SdkError::InvalidSeed),
        }
    }

    /// `from_seed` where the program derives the wallet's addresses, and `None` where it does not.
    pub fn checked_from_seed(context: Context, seed: &[u8]) -> (r: Option<SdkResult<Wallet>>)
        ensures
            match r {
                Some(Ok(wallet)) => {
                    &&& seed@.len() >= 32
                    &&& derivable(ed25519_public_key(seed@.take(32)), 0)
                    &&& is_wallet_of(
                        wallet@,
                        seed@.take(32) + ed25519_public_key(seed@.take(32)),
                        0,
                        context,
                    )
                },
                Some(Err(e)) => seed@.len() < 32 && e == SdkError::InvalidSeed,
                None => seed@.len() >= 32 && !derivable(ed25519_public_key(seed@.take(32)), 0),
            },
    {
        match keypair_from_seed(seed) {
            Some(authority) => {
                assert(public_half(keypair_bytes(authority)) =~= ed25519_public_key(
                    seed@.take(32),
                ));
                if Wallet::is_derivable(&authority, 0) {
                    Some(Wallet::from_seed(context, seed))
                } else {
                    None
                }
            },
            None => Some(Wallet::from_seed(context, seed)),
        }
    }

    /// Init wallet with given sub-account.
    ///
    /// `authority` keypair for tx signing
    pub fn with_sub_account(context: Context, authority: Keypair, sub_account_id: u16) -> (r: Wallet)
        requires
            derivable(public_half(keypair_bytes(authority)), sub_account_id),
        ensures
            is_wallet_of(r@, keypair_bytes(authority), sub_account_id, context),
    {
        broadcast use lemma_pubkey_ext;

        let address: Pubkey = keypair_pubkey(&authority);
        let program: Pubkey = program_id();
        let user: Pubkey = Wallet::derive_user_account(&address, sub_account_id, &program);
        let stats: Pubkey = Wallet::derive_stats_account(&address, &program);
        let ghost chosen = choose|key: Pubkey| key@ == public_half(keypair_bytes(authority));
        assert(chosen@ == address@);
        Wallet { authority: Arc::new(authority), user, stats, sub_account_id, context }
    }

    /// `with_sub_account` where the program derives the wallet's addresses, and `None` where it
    /// does not.
    pub fn checked_with_sub_account(
        context: Context,
        authority: Keypair,
        sub_account_id: u16,
    ) -> (r: Option<Wallet>)
        ensures
            r is Some <==> derivable(public_half(keypair_bytes(authority)), sub_account_id),
            r matches Some(wallet) ==> is_wallet_of(
                wallet@,
                keypair_bytes(authority),
                sub_account_id,
                context,
            ),
    {
        if Wallet::is_derivable(&authority, sub_account_id) {
            Some(Wallet::with_sub_account(context, authority, sub_account_id))
        } else {
            None
        }
    }

    /// Whether the program derives both addresses of a wallet.
    fn is_derivable(authority: &Keypair, sub_account_id: u16) -> (r: bool)
        ensures
            r == derivable(public_half(keypair_bytes(*authority)), sub_account_id),
    {
        let address: Pubkey = keypair_pubkey(authority);
        let program: Pubkey = program_id();
        match Wallet::checked_derive_user_account(&address, sub_account_id, &program) {
            Some(_) => match Wallet::checked_derive_stats_account(&address, &program) {
                Some(_) => true,
                None => false,
            },
            None => false,
        }
    }

    /// Derives the address of a user account, where there is one.
    fn find_user_account(account: &Pubkey, sub_account_id: u16, program: &Pubkey) -> (r: Option<
        Pubkey,
    >)
        ensures
            match r {
                Some(address) => user_address(account@, sub_account_id, program@) == Some(address@),
                None => user_address(account@, sub_account_id, program@) is None,
            },
    {
        let tag: [u8; 4] = USER_SEED;
        let index: [u8; 2] = [(sub_account_id % 256) as u8, (sub_account_id / 256) as u8];
        let seeds: [&[u8]; 3] = [&tag, &account.bytes, &index];
        assert(index@ =~= sub_account_seed(sub_account_id));
        assert(seeds@.map_values(|s: &[u8]| s@) =~= user_seeds(account@, sub_account_id));
        match try_find_program_address(&seeds, program) {
            Some((address, _bump)) => Some(address),
            None => None,
        }
    }

    /// Derives the address of a stats account, where there is one.
    fn find_stats_account(account: &Pubkey, program: &Pubkey) -> (r: Option<Pubkey>)
        ensures
            match r {
                Some(address) => stats_address(account@, program@) == Some(address@),
                None => stats_address(account@, program@) is None,
            },
    {
        let tag: [u8; 10] = STATS_SEED;
        let seeds: [&[u8]; 2] = [&tag, &account.bytes];
        assert(seeds@.map_values(|s: &[u8]| s@) =~= stats_seeds(account@));
        match try_find_program_address(&seeds, program) {
            Some((address, _bump)) => Some(address),
            None => None,
        }
    }

    /// Calculate the address of a drift user account/sub-account
    pub fn derive_user_account(account: &Pubkey, sub_account_id: u16, program: &Pubkey) -> (r:
        Pubkey)
        requires
            user_address(account@, sub_account_id, program@) is Some,
        ensures
            user_address(account@, sub_account_id, program@) == Some(r@),
    {
        Wallet::find_user_account(account, sub_account_id, program).unwrap()
    }

    /// `derive_user_account` where the program derives an address, and `None` where it does not.
    pub fn checked_derive_user_account(
        account: &Pubkey,
        sub_account_id: u16,
        program: &Pubkey,
    ) -> (r: Option<Pubkey>)
        ensures
            match r {
                Some(address) => user_address(account@, sub_account_id, program@) == Some(address@),
                None => user_address(account@, sub_account_id, program@) is None,
            },
    {
        match Wallet::find_user_account(account, sub_account_id, program) {
            Some(_) => Some(Wallet::derive_user_account(account, sub_account_id, program)),
            None => None,
        }
    }

    /// Calculate the address of a drift stats account
    pub fn derive_stats_account(account: &Pubkey, program: &Pubkey) -> (r: Pubkey)
        requires
            stats_address(account@, program@) is Some,
        ensures
            stats_address(account@, program@) == Some(r@),
    {
        Wallet::find_stats_account(account, program).unwrap()
    }

    /// `derive_stats_account` where the program derives an address, and `None` where it does not.
    pub fn checked_derive_stats_account(account: &Pubkey, program: &Pubkey) -> (r: Option<Pubkey>)
        ensures
            match r {
                Some(address) => stats_address(account@, program@) == Some(address@),
                None => stats_address(account@, program@) is None,
            },
    {
        match Wallet::find_stats_account(account, program) {
            Some(_) => Some(Wallet::derive_stats_account(account, program)),
            None => None,
        }
    }

    /// Return the wallet authority keypair
    pub(crate) fn authority_pair(&self) -> (r: &Keypair)
        ensures
            keypair_bytes(*r) == self@.keypair,
    {
        &*self.authority
    }

    /// Return the wallet authority address
    pub fn authority(&self) -> (r: Pubkey)
        ensures
            r == self@.authority,
            is_wallet(self@),
    {
        broadcast use lemma_pubkey_ext;

        proof {
            use_type_invariant(self);
        }
        keypair_pubkey(self.authority_pair())
    }

    /// Return the drift user address
    pub fn user(&self) -> (r: &Pubkey)
        ensures
            *r == self@.user,
            is_wallet(self@),
    {
        proof {
            use_type_invariant(self);
        }
        &self.user
    }

    /// Return the drift user stats address
    pub fn stats(&self) -> (r: &Pubkey)
        ensures
            *r == self@.stats,
            is_wallet(self@),
    {
        proof {
            use_type_invariant(self);
        }
        &self.stats
    }

    /// Return the user sub-account index
    pub fn sub_account_id(&self) -> (r: u16)
        ensures
            r == self@.sub_account_id,
    {
        self.sub_account_id
    }

    /// Return the target network/chain context
    pub fn context(&self) -> (r: Context)
        ensures
            r == self@.context,
    {
        self.context
    }
}

/// A derived address is what the program derives from the words, the account and the two bytes of
/// the sub-account index, the low one first.
pub proof fn derived_addresses_belong_to_the_account(
    account: Pubkey,
    sub_account_id: u16,
    low: u8,
    high: u8,
    program: Pubkey,
    user: Pubkey,
    stats: Pubkey,
)
    requires
        sub_account_id == low + 256 * high,
        call_ensures(Wallet::derive_user_account, (&account, sub_account_id, &program), user),
        call_ensures(Wallet::derive_stats_account, (&account, &program), stats),
    ensures
        program_address(
            seq![seq![117u8, 115, 101, 114], account@, seq![low, high]],
            program@,
        ) matches Some((address, _)) && address == user@,
        program_address(
            seq![seq![117u8, 115, 101, 114, 95, 115, 116, 97, 116, 115], account@],
            program@,
        ) matches Some((address, _)) && address == stats@,
{
    addresses_are_derived_from_authority_and_sub_account(
        account@,
        sub_account_id,
        low,
        high,
        program@,
    );
}

/// A wallet that is made with a sub-account shows that sub-account and deployment, the public key of
/// its key pair as its authority, and the addresses that belong to these.
pub proof fn wallets_show_what_they_were_made_of(
    context: Context,
    keypair: Keypair,
    sub_account_id: u16,
    wallet: Wallet,
    authority: Pubkey,
    user: Pubkey,
    stats: Pubkey,
    shown: (u16, Context),
)
    requires
        call_ensures(Wallet::with_sub_account, (context, keypair, sub_account_id), wallet),
        call_ensures(Wallet::authority, (&wallet,), authority),
        call_ensures(Wallet::user, (&wallet,), &user),
        call_ensures(Wallet::stats, (&wallet,), &stats),
        call_ensures(Wallet::sub_account_id, (&wallet,), shown.0),
        call_ensures(Wallet::context, (&wallet,), shown.1),
    ensures
        authority@ == keypair_bytes(keypair).subrange(32, 64),
        user_address(authority@, sub_account_id, PROGRAM_ID@) == Some(user@),
        stats_address(authority@, PROGRAM_ID@) == Some(stats@),
        shown.0 == sub_account_id,
        shown.1 == context,
{
}

/// A wallet from a seed, from a base58 key or from a string has sub-account 0 and the given
/// deployment, and signs with the key that the seed, the key or the string stands for.
pub proof fn wallets_use_the_default_sub_account(
    context: Context,
    seed: &[u8],
    text: &str,
    file: Option<Keypair>,
    from_seed: SdkResult<Wallet>,
    from_text: Wallet,
    from_either: SdkResult<Wallet>,
)
    requires
        call_ensures(Wallet::from_seed, (context, seed), from_seed),
        call_ensures(Wallet::from_seed_bs58, (context, text), from_text),
        call_ensures(Wallet::try_from_str, (context, text, file), from_either),
    ensures
        from_seed is Ok <==> seed@.len() >= 32,
        from_seed matches Ok(wallet) ==> {
            &&& wallet@.keypair == seed@.take(32) + ed25519_public_key(seed@.take(32))
            &&& wallet@.sub_account_id == 0
            &&& wallet@.context == context
        },
        from_seed matches Err(e) ==> e == SdkError::InvalidSeed,
        base58_decoded(text@)->0 == from_text@.keypair,
        from_text@.sub_account_id == 0,
        from_text@.context == context,
        file matches Some(keypair) ==> (from_either matches Ok(wallet) && wallet@.keypair
            == keypair_bytes(keypair)),
        file is None && is_base58_keypair(text@) ==> (from_either matches Ok(wallet)
            && wallet@.keypair == from_text@.keypair),
        file is None && !is_base58_keypair(text@) ==> (from_either matches Err(e) && e
            == SdkError::InvalidSeed),
        from_either matches Ok(wallet) ==> wallet@.sub_account_id == 0 && wallet@.context
            == context,
{
}

/// A key is loaded from the file where there is one, and else from the text, which is refused as an
/// invalid seed exactly where it is not the base58 form of a key pair.
pub proof fn keys_are_loaded_from_file_or_text(
    text: &str,
    file: Option<Keypair>,
    r: SdkResult<Keypair>,
)
    requires
        call_ensures(load_keypair, (text, file), r),
    ensures
        file matches Some(keypair) ==> (r matches Ok(loaded) && loaded == keypair),
        file is None ==> (r is Ok <==> is_base58_keypair(text@)),
        file is None ==> (r matches Ok(loaded) ==> base58_decoded(text@) == Some(
            keypair_bytes(loaded),
        )),
        r matches Err(e) ==> e == SdkError::InvalidSeed,
{
}

} // verus!
