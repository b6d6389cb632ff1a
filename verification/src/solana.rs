//! The calls into `solana_sdk`, and what is taken on trust of each.
use crate::pubkey::Pubkey;
use crate::transaction::{
    compiles, is_built, over, raw_views, shape, signable, signing, InstructionShape, MessageData,
    RawInstruction, RawInstructionData, TransactionData, TransactionShape,
};
use solana_sdk::instruction::{AccountMeta, Instruction};
use solana_sdk::signature::Keypair;
use solana_sdk::signer::Signer;
use solana_sdk::transaction::Transaction;
use vstd::prelude::*;

verus! {

/// `solana_sdk::signature::Keypair`, an ed25519 key pair.
#[verifier::external_type_specification]
#[verifier::external_body]
pub struct ExKeypair(Keypair);

/// `solana_sdk::transaction::Transaction`, a message with its signatures.
#[verifier::external_type_specification]
#[verifier::external_body]
pub struct ExTransaction(Transaction);

/// The bytes of a key pair: its secret key and, from byte 32 on, its public key.
pub uninterp spec fn keypair_bytes(keypair: Keypair) -> Seq<u8>;

/// The ed25519 public key of a secret key.
pub uninterp spec fn ed25519_public_key(secret: Seq<u8>) -> Seq<u8>;

/// Whether bytes are the compressed form of a point on the ed25519 curve.
pub uninterp spec fn is_ed25519_point(bytes: Seq<u8>) -> bool;

/// What a base58 text decodes to, where it is valid.
pub uninterp spec fn base58_decoded(text: Seq<char>) -> Option<Seq<u8>>;

/// The base58 text of bytes, as `bs58::encode` writes it.
pub uninterp spec fn base58_encoded(bytes: Seq<u8>) -> Seq<char>;

/// The address that a program derives from seeds, with its bump seed, where there is one.
pub uninterp spec fn program_address(seeds: Seq<Seq<u8>>, program: Seq<u8>) -> Option<
    (Seq<u8>, u8),
>;

/// The unsigned transaction of a list of instructions and a fee payer.
pub uninterp spec fn transaction_with_payer(
    instructions: Seq<RawInstructionData>,
    payer: Seq<u8>,
) -> Transaction;

/// What the fields of a transaction hold.
pub uninterp spec fn transaction_data(tx: Transaction) -> TransactionData;

/// The signature that a key pair makes over a message, by `Signer::try_sign_message` on the bytes of
/// `Message::serialize`.
pub uninterp spec fn message_signature(message: MessageData, keypair: Seq<u8>) -> Seq<u8>;

/// Calls `Signer::pubkey` on a `Keypair`: the address is the key pair's public key.
#[verifier::external_body]
pub(crate) fn keypair_pubkey(keypair: &Keypair) -> (r: Pubkey)
    ensures
        r@ == keypair_bytes(*keypair).subrange(32, 64),
{
    Pubkey { bytes: keypair.pubkey().to_bytes() }
}

/// Calls `solana_sdk::signature::keypair_from_seed`: a seed of at least 32 bytes gives the key pair
/// whose secret key is the first 32, and a shorter one gives an error.
#[verifier::external_body]
pub(crate) fn keypair_from_seed(seed: &[u8]) -> (r: Option<Keypair>)
    ensures
        match r {
            Some(keypair) => {
                &&& seed@.len() >= 32
                &&& keypair_bytes(keypair) == seed@.take(32) + ed25519_public_key(seed@.take(32))
                &&& keypair_bytes(keypair).len() == 64
            },
            None => seed@.len() < 32,
        },
{
    solana_sdk::signature::keypair_from_seed(seed).ok()
}

/// Calls `bs58::decode` and `into_vec` on its result, which fail on a text that is not base58, and
/// give back the bytes of a text that `bs58::encode` wrote.
#[verifier::external_body]
pub(crate) fn base58_decode(text: &str) -> (r: Option<Vec<u8>>)
    ensures
        match r {
            Some(bytes) => {
                &&& base58_decoded(text@) == Some(bytes@)
                &&& forall|b: Seq<u8>| #[trigger] base58_encoded(b) == text@ ==> bytes@ == b
            },
            None => {
                &&& base58_decoded(text@) is None
                &&& forall|b: Seq<u8>| #[trigger] base58_encoded(b) != text@
            },
        },
{
    solana_sdk::bs58::decode(text).into_vec().ok()
}

/// Calls `Keypair::from_bytes`, which takes 64 bytes whose second half is a curve point, keeps them
/// as they are, and fails on all others.
#[verifier::external_body]
pub(crate) fn keypair_from_bytes(bytes: &[u8]) -> (r: Option<Keypair>)
    ensures
        match r {
            Some(keypair) => {
                &&& bytes@.len() == 64
                &&& is_ed25519_point(bytes@.subrange(32, 64))
                &&& keypair_bytes(keypair) == bytes@
            },
            None => !(bytes@.len() == 64 && is_ed25519_point(bytes@.subrange(32, 64))),
        },
{
    Keypair::from_bytes(bytes).ok()
}

/// Calls `Keypair::from_base58_string`, which decodes the text and makes a key pair of the bytes,
/// and panics where either fails. Of a text that `bs58::encode` wrote it decodes the same bytes.
#[verifier::external_body]
pub(crate) fn keypair_from_base58_string(text: &str) -> (r: Keypair)
    requires
        is_base58_keypair(text@),
    ensures
        base58_decoded(text@) == Some(keypair_bytes(r)),
        forall|b: Seq<u8>| #[trigger] base58_encoded(b) == text@ ==> keypair_bytes(r) == b,
{
    Keypair::from_base58_string(text)
}

/// The bytes are those of a key pair.
pub open spec fn is_keypair(bytes: Seq<u8>) -> bool {
    bytes.len() == 64 && is_ed25519_point(bytes.subrange(32, 64))
}

/// The text is the base58 form of a key pair.
pub open spec fn is_base58_keypair(text: Seq<char>) -> bool {
    base58_decoded(text) matches Some(bytes) && is_keypair(bytes)
}

/// Calls `Pubkey::try_find_program_address`. `Pubkey::find_program_address` gives the same address
/// and bump seed, and panics where this gives `None`.
#[verifier::external_body]
pub(crate) fn try_find_program_address(seeds: &[&[u8]], program: &Pubkey) -> (r: Option<
    (Pubkey, u8),
>)
    ensures
        ({
            let name = program_address(seeds@.map_values(|s: &[u8]| s@), program@);
            match r {
                Some((address, bump)) => name == Some((address@, bump)),
                None => name is None,
            }
        }),
{
    let program = solana_sdk::pubkey::Pubkey::from(program.bytes);
    match solana_sdk::pubkey::Pubkey::try_find_program_address(seeds, &program) {
        Some((address, bump)) => Some((Pubkey { bytes: address.to_bytes() }, bump)),
        None => None,
    }
}

/// Calls `Transaction::new_with_payer`, which panics where more than 255 keys sign or more than 255
/// keys are neither written nor sign. `is_built` says what the transaction holds: the payer is the
/// first key, each key comes once, the keys that have to sign come first, those that are written
/// come before those that are only read, and each of these four kinds is in the order of addresses,
/// with the payer before all; the header counts them; signatures and blockhash are empty; and each
/// instruction refers to its keys by index, which takes a byte and so is right for up to 256 keys.
#[verifier::external_body]
pub(crate) fn new_with_payer(instructions: &Vec<RawInstruction>, payer: &Pubkey) -> (r: Transaction)
    requires
        compiles(raw_views(instructions@), *payer),
    ensures
        r == transaction_with_payer(raw_views(instructions@), payer@),
        is_built(transaction_data(r), raw_views(instructions@), *payer),
{
    let key = solana_sdk::pubkey::Pubkey::from;
    let ixs: Vec<Instruction> = instructions.iter().map(|ix| Instruction {
        program_id: key(ix.program_id.bytes),
        accounts: ix.accounts.iter().map(|m| AccountMeta {
            pubkey: key(m.pubkey.bytes),
            is_signer: m.is_signer,
            is_writable: m.is_writable,
        }).collect(),
        data: ix.data.clone(),
    }).collect();
    Transaction::new_with_payer(&ixs, Some(&key(payer.bytes)))
}

/// Reads the counts and lengths in the public fields of a `Transaction`.
#[verifier::external_body]
pub(crate) fn shape_of(tx: &Transaction) -> (r: TransactionShape)
    ensures
        r@ == shape(transaction_data(*tx)),
{
    TransactionShape {
        signatures: tx.signatures.len(),
        required_signatures: tx.message.header.num_required_signatures as usize,
        keys: tx.message.account_keys.len(),
        instructions: tx.message.instructions.iter().map(|ix| InstructionShape {
            accounts: ix.accounts.len(),
            data: ix.data.len(),
        }).collect(),
    }
}

/// Calls `Transaction::try_sign` with one key pair on a copy. `Transaction::sign` leaves the same
/// transaction, and panics where this gives `None`. Both panic on a transaction that has fewer
/// signatures than it requires or is too long to serialise. `signing` says what the signed
/// transaction holds and when there is one: where the key is among those that have to sign, its
/// signature over the message with the new blockhash goes to the key's place, the signatures over
/// another blockhash are dropped, and signing fails where a signature is still empty then. Nothing is
/// said of what a signature is, nor that it is never empty.
#[verifier::external_body]
pub(crate) fn try_sign(tx: &Transaction, keypair: &Keypair, blockhash: &[u8; 32]) -> (r: Option<
    Transaction,
>)
    requires
        signable(shape(transaction_data(*tx))),
    ensures
        ({
            let before = transaction_data(*tx);
            let outcome = signing(
                before,
                keypair_bytes(*keypair).subrange(32, 64),
                message_signature(over(before.message, blockhash@), keypair_bytes(*keypair)),
                blockhash@,
            );
            match r {
                Some(signed) => outcome == Some(transaction_data(signed)),
                None => outcome is None,
            }
        }),
{
    let mut tx = tx.clone();
    match tx.try_sign(&[keypair], solana_sdk::hash::Hash::new_from_array(*blockhash)) {
        Ok(()) => Some(tx),
        Err(_) => None,
    }
}

} // verus!
