//! Instructions as they go into a transaction, and what a transaction can hold.
use crate::pubkey::{precedes, Pubkey};
use crate::remaining::AccountMeta;
use vstd::prelude::*;

verus! {

/// An instruction ready for a transaction.
#[derive(Debug, PartialEq, Eq)]
pub struct RawInstruction {
    pub program_id: Pubkey,
    pub accounts: Vec<AccountMeta>,
    pub data: Vec<u8>,
}

/// What a raw instruction holds.
#[verifier::ext_equal]
pub struct RawInstructionData {
    pub program_id: Pubkey,
    pub accounts: Seq<AccountMeta>,
    pub data: Seq<u8>,
}

impl View for RawInstruction {
    type V = RawInstructionData;

    open spec fn view(&self) -> RawInstructionData {
        RawInstructionData {
            program_id: self.program_id,
            accounts: self.accounts@,
            data: self.data@,
        }
    }
}

/// What each raw instruction holds.
pub open spec fn raw_views(instructions: Seq<RawInstruction>) -> Seq<RawInstructionData> {
    instructions.map_values(|ix: RawInstruction| ix@)
}

/// What a raw instruction is said to hold is all that it holds.
pub proof fn raw_instructions_hold_what_they_are_said_to(instructions: Seq<RawInstruction>, i: int)
    requires
        0 <= i < instructions.len(),
    ensures
        raw_views(instructions).len() == instructions.len(),
        raw_views(instructions)[i].program_id == instructions[i].program_id,
        raw_views(instructions)[i].accounts == instructions[i].accounts@,
        raw_views(instructions)[i].data == instructions[i].data@,
{
}

/// Every mention of a key: for each instruction the program, as a key that is only read, and then
/// the accounts.
pub open spec fn mentions(instructions: Seq<RawInstructionData>) -> Seq<AccountMeta>
    decreases instructions.len(),
{
    if instructions.len() == 0 {
        Seq::empty()
    } else {
        let last = instructions.last();
        mentions(instructions.drop_last()).push(
            AccountMeta { pubkey: last.program_id, is_signer: false, is_writable: false },
        ) + last.accounts
    }
}

/// Some mention is of `key`.
pub open spec fn mentioned(metas: Seq<AccountMeta>, key: Pubkey) -> bool {
    exists|i: int| 0 <= i < metas.len() && (#[trigger] metas[i]).pubkey == key
}

/// Some mention asks `key` to sign.
pub open spec fn signs(metas: Seq<AccountMeta>, key: Pubkey) -> bool {
    exists|i: int|
        0 <= i < metas.len() && (#[trigger] metas[i]).pubkey == key && metas[i].is_signer
}

/// Some mention asks to write to `key`.
pub open spec fn writes(metas: Seq<AccountMeta>, key: Pubkey) -> bool {
    exists|i: int|
        0 <= i < metas.len() && (#[trigger] metas[i]).pubkey == key && metas[i].is_writable
}

/// The keys that have to sign: the payer, and those that an instruction asks to.
pub open spec fn signer_keys(instructions: Seq<RawInstructionData>, payer: Pubkey) -> Set<Pubkey> {
    Set::new(|key: Pubkey| key == payer || signs(mentions(instructions), key))
}

/// The keys that sign and are not written to.
pub open spec fn read_only_signers(instructions: Seq<RawInstructionData>, payer: Pubkey) -> Set<
    Pubkey,
> {
    Set::new(
        |key: Pubkey|
            {
                &&& key != payer
                &&& signs(mentions(instructions), key)
                &&& !writes(mentions(instructions), key)
            },
    )
}

/// The keys that neither sign nor are written to.
pub open spec fn read_only_keys(instructions: Seq<RawInstructionData>, payer: Pubkey) -> Set<
    Pubkey,
> {
    Set::new(
        |key: Pubkey|
            {
                &&& key != payer
                &&& mentioned(mentions(instructions), key)
                &&& !signs(mentions(instructions), key)
                &&& !writes(mentions(instructions), key)
            },
    )
}

/// All keys of a transaction.
pub open spec fn all_keys(instructions: Seq<RawInstructionData>, payer: Pubkey) -> Set<Pubkey> {
    Set::new(|key: Pubkey| key == payer || mentioned(mentions(instructions), key))
}

/// The instructions go into one transaction: a message counts the keys that sign, and those that
/// are only read, in one byte each.
pub open spec fn compiles(instructions: Seq<RawInstructionData>, payer: Pubkey) -> bool {
    &&& signer_keys(instructions, payer).len() <= 255
    &&& read_only_keys(instructions, payer).len() <= 255
}

/// The lengths of one instruction of a transaction.
#[derive(Clone, Copy, Debug, PartialEq, Eq, Structural)]
pub struct InstructionShape {
    pub accounts: usize,
    pub data: usize,
}

/// The counts and lengths in a transaction.
#[derive(Debug, PartialEq, Eq)]
pub struct TransactionShape {
    pub signatures: usize,
    pub required_signatures: usize,
    pub keys: usize,
    pub instructions: Vec<InstructionShape>,
}

/// The counts and lengths in a transaction; of each instruction, how many accounts it names and how
/// many bytes of data it carries.
#[verifier::ext_equal]
pub struct TransactionShapeData {
    pub signatures: nat,
    pub required_signatures: nat,
    pub keys: nat,
    pub instructions: Seq<(nat, nat)>,
}

/// An instruction inside a transaction: the program and the accounts by their index among the keys.
pub struct CompiledInstructionData {
    pub program_index: u8,
    pub accounts: Seq<u8>,
    pub data: Seq<u8>,
}

/// What the message of a transaction holds.
pub struct MessageData {
    /// How many of the keys, from the first on, have to sign.
    pub required_signatures: nat,
    /// How many keys, the last of those that sign, are only read.
    pub readonly_signed: nat,
    /// How many keys, the last of those that do not sign, are only read.
    pub readonly_unsigned: nat,
    pub keys: Seq<Pubkey>,
    pub blockhash: Seq<u8>,
    pub instructions: Seq<CompiledInstructionData>,
}

/// What a transaction holds.
pub struct TransactionData {
    pub signatures: Seq<Seq<u8>>,
    pub message: MessageData,
}

/// The counts and lengths in a transaction.
pub open spec fn shape(tx: TransactionData) -> TransactionShapeData {
    TransactionShapeData {
        signatures: tx.signatures.len(),
        required_signatures: tx.message.required_signatures,
        keys: tx.message.keys.len(),
        instructions: tx.message.instructions.map_values(
            |ix: CompiledInstructionData| (ix.accounts.len(), ix.data.len()),
        ),
    }
}

/// The message lets its instructions write to the key at an index.
pub open spec fn is_writable_at(message: MessageData, i: int) -> bool {
    ||| 0 <= i < message.required_signatures - message.readonly_signed
    ||| message.required_signatures <= i < message.keys.len() - message.readonly_unsigned
}

/// Bytes that are all zero: a signature or a blockhash that is not there yet.
pub open spec fn blank(len: nat) -> Seq<u8> {
    Seq::new(len, |i: int| 0u8)
}

/// The counts and lengths of the transaction of instructions and a payer.
pub open spec fn built_shape(
    instructions: Seq<RawInstructionData>,
    payer: Pubkey,
) -> TransactionShapeData {
    TransactionShapeData {
        signatures: signer_keys(instructions, payer).len(),
        required_signatures: signer_keys(instructions, payer).len(),
        keys: all_keys(instructions, payer).len(),
        instructions: instructions.map_values(
            |ix: RawInstructionData| (ix.accounts.len(), ix.data.len()),
        ),
    }
}

/// A compiled instruction is a given one, by the keys that its indices stand for.
pub open spec fn is_compiled(
    compiled: CompiledInstructionData,
    keys: Seq<Pubkey>,
    ix: RawInstructionData,
) -> bool {
    &&& keys[compiled.program_index as int] == ix.program_id
    &&& compiled.accounts.len() == ix.accounts.len()
    &&& forall|j: int|
        0 <= j < ix.accounts.len() ==> keys[#[trigger] compiled.accounts[j] as int]
            == ix.accounts[j].pubkey
}

/// `tx` is an unsigned transaction of instructions and a payer: the payer is its first key, each key
/// comes once, the keys that have to sign come first and the keys that are written come before those
/// that are only read, each kind in the order of addresses; there is an empty place for each
/// signature and for the blockhash, and the instructions are the given ones in their order.
pub open spec fn is_built(
    tx: TransactionData,
    instructions: Seq<RawInstructionData>,
    payer: Pubkey,
) -> bool {
    let message = tx.message;
    let keys = message.keys;
    &&& shape(tx) == built_shape(instructions, payer)
    &&& message.readonly_signed == read_only_signers(instructions, payer).len()
    &&& message.readonly_unsigned == read_only_keys(instructions, payer).len()
    &&& forall|i: int| 0 <= i < tx.signatures.len() ==> #[trigger] tx.signatures[i] == blank(64)
    &&& message.blockhash == blank(32)
    &&& 1 <= message.required_signatures <= keys.len()
    &&& keys[0] == payer
    &&& keys.no_duplicates()
    &&& keys.to_set() == all_keys(instructions, payer)
    &&& keys.take(message.required_signatures as int).to_set() == signer_keys(instructions, payer)
    &&& forall|i: int|
        0 <= i < keys.len() ==> (is_writable_at(message, i) <==> #[trigger] keys[i] == payer
            || writes(mentions(instructions), keys[i]))
    &&& forall|i: int, j: int|
        1 <= i < j < keys.len() && (i < message.required_signatures <==> j
            < message.required_signatures) && (is_writable_at(message, i) <==> is_writable_at(
            message,
            j,
        )) ==> precedes((#[trigger] keys[i])@, (#[trigger] keys[j])@)
    &&& message.instructions.len() == instructions.len()
    &&& forall|i: int|
        0 <= i < instructions.len() ==> (#[trigger] message.instructions[i]).data
            == instructions[i].data
    &&& keys.len() <= 256 ==> forall|i: int|
        0 <= i < instructions.len() ==> is_compiled(
            #[trigger] message.instructions[i],
            keys,
            instructions[i],
        )
}

/// A built transaction lets its instructions write to a key exactly where the key pays or an
/// instruction asks to write to it: what is only listed to be read stays so.
pub proof fn read_only_keys_stay_so(
    tx: TransactionData,
    instructions: Seq<RawInstructionData>,
    payer: Pubkey,
    key: Pubkey,
)
    requires
        is_built(tx, instructions, payer),
        all_keys(instructions, payer).contains(key),
    ensures
        exists|i: int| 0 <= i < tx.message.keys.len() && #[trigger] tx.message.keys[i] == key,
        forall|i: int|
            0 <= i < tx.message.keys.len() && #[trigger] tx.message.keys[i] == key ==> (
            is_writable_at(tx.message, i) <==> key == payer || writes(mentions(instructions), key)),
{
    assert(tx.message.keys.to_set().contains(key));
    assert(tx.message.keys.contains(key));
}

/// The message requires the signature of a key.
pub open spec fn requires_signature_of(message: MessageData, key: Seq<u8>) -> bool {
    &&& message.required_signatures <= message.keys.len()
    &&& exists|i: int|
        0 <= i < message.required_signatures && (#[trigger] message.keys[i])@ == key
}

/// The signature of a key stands at this index: the first at which the key has to sign.
pub open spec fn is_signer_index(message: MessageData, key: Seq<u8>, i: int) -> bool {
    &&& 0 <= i < message.required_signatures <= message.keys.len()
    &&& message.keys[i]@ == key
    &&& forall|j: int| 0 <= j < i ==> (#[trigger] message.keys[j])@ != key
}

/// The index at which the signature of a key stands, where the message requires it.
pub open spec fn signer_index(message: MessageData, key: Seq<u8>) -> int {
    choose|i: int| is_signer_index(message, key, i)
}

/// The message over another blockhash.
pub open spec fn over(message: MessageData, blockhash: Seq<u8>) -> MessageData {
    MessageData { blockhash, ..message }
}

/// The signatures that stay when a transaction is signed over a blockhash: all of them where it is
/// the one that they were made over, and none elsewhere.
pub open spec fn kept_signatures(tx: TransactionData, blockhash: Seq<u8>) -> Seq<Seq<u8>> {
    if tx.message.blockhash == blockhash {
        tx.signatures
    } else {
        Seq::new(tx.signatures.len(), |i: int| blank(64))
    }
}

/// The transaction over a blockhash, with a signature put in the place of a key.
pub open spec fn with_signature(
    tx: TransactionData,
    key: Seq<u8>,
    signature: Seq<u8>,
    blockhash: Seq<u8>,
) -> TransactionData {
    TransactionData {
        signatures: kept_signatures(tx, blockhash).update(
            signer_index(tx.message, key),
            signature,
        ),
        message: over(tx.message, blockhash),
    }
}

/// No signature is missing.
pub open spec fn fully_signed(tx: TransactionData) -> bool {
    forall|i: int| 0 <= i < tx.signatures.len() ==> #[trigger] tx.signatures[i] != blank(64)
}

/// What a transaction is once a key has signed it over a blockhash, where it requires the key's
/// signature and is then fully signed.
pub open spec fn signing(
    tx: TransactionData,
    key: Seq<u8>,
    signature: Seq<u8>,
    blockhash: Seq<u8>,
) -> Option<TransactionData> {
    let signed = with_signature(tx, key, signature, blockhash);
    if requires_signature_of(tx.message, key) && fully_signed(signed) {
        Some(signed)
    } else {
        None
    }
}

/// A key whose signature is required has a place for it.
proof fn lemma_signer_index(message: MessageData, key: Seq<u8>, n: int)
    requires
        0 <= n < message.required_signatures <= message.keys.len(),
        message.keys[n]@ == key,
    ensures
        is_signer_index(message, key, signer_index(message, key)),
    decreases n,
{
    if exists|j: int| 0 <= j < n && (#[trigger] message.keys[j])@ == key {
        let j = choose|j: int| 0 <= j < n && (#[trigger] message.keys[j])@ == key;
        lemma_signer_index(message, key, j);
    } else {
        assert(is_signer_index(message, key, n));
    }
}

/// Signing fails for three reasons only: the transaction does not require the key's signature, the
/// signature that the key made is empty, or the signature of another key is missing.
pub proof fn why_signing_fails(
    tx: TransactionData,
    key: Seq<u8>,
    signature: Seq<u8>,
    blockhash: Seq<u8>,
)
    requires
        tx.message.required_signatures <= tx.signatures.len(),
    ensures
        signing(tx, key, signature, blockhash) is None <==> {
            ||| !requires_signature_of(tx.message, key)
            ||| signature == blank(64)
            ||| exists|i: int|
                0 <= i < tx.signatures.len() && i != signer_index(tx.message, key)
                    && #[trigger] kept_signatures(tx, blockhash)[i] == blank(64)
        },
{
    if requires_signature_of(tx.message, key) {
        let n = choose|i: int|
            0 <= i < tx.message.required_signatures && (#[trigger] tx.message.keys[i])@ == key;
        lemma_signer_index(tx.message, key, n);
        let p = signer_index(tx.message, key);
        let kept = kept_signatures(tx, blockhash);
        let signed = with_signature(tx, key, signature, blockhash);
        assert(signed.signatures[p] == signature);
        assert forall|i: int| 0 <= i < kept.len() && i != p implies signed.signatures[i]
            == #[trigger] kept[i] by {}
        if fully_signed(signed) {
            assert forall|i: int| 0 <= i < kept.len() && i != p implies #[trigger] kept[i] != blank(
                64,
            ) by {
                assert(signed.signatures[i] != blank(64));
            }
        } else {
            let i = choose|i: int|
                0 <= i < signed.signatures.len() && #[trigger] signed.signatures[i] == blank(64);
            if i != p {
                assert(kept[i] == blank(64));
            }
        }
    }
}

/// Signing changes the signature of the key and the blockhash, and nothing else. Over another
/// blockhash it succeeds only where no other signature is needed.
pub proof fn signing_keeps_the_rest(
    tx: TransactionData,
    key: Seq<u8>,
    signature: Seq<u8>,
    blockhash: Seq<u8>,
)
    requires
        tx.message.required_signatures <= tx.signatures.len(),
        signing(tx, key, signature, blockhash) is Some,
    ensures
        ({
            let signed = signing(tx, key, signature, blockhash)->0;
            let p = signer_index(tx.message, key);
            &&& signed.message == over(tx.message, blockhash)
            &&& signed.signatures.len() == tx.signatures.len()
            &&& is_signer_index(tx.message, key, p)
            &&& signed.signatures[p] == signature
            &&& tx.signatures.len() == 1 || tx.message.blockhash == blockhash
            &&& forall|i: int|
                0 <= i < tx.signatures.len() && i != p ==> #[trigger] signed.signatures[i]
                    == tx.signatures[i]
        }),
{
    let n = choose|i: int|
        0 <= i < tx.message.required_signatures && (#[trigger] tx.message.keys[i])@ == key;
    lemma_signer_index(tx.message, key, n);
    let p = signer_index(tx.message, key);
    let signed = with_signature(tx, key, signature, blockhash);
    if tx.message.blockhash != blockhash && tx.signatures.len() > 1 {
        let i: int = if p == 0 {
            1
        } else {
            0
        };
        assert(signed.signatures[i] == blank(64));
    }
}

/// A mention that asks a key to sign is an account of one of the instructions.
proof fn lemma_signer_origin(instructions: Seq<RawInstructionData>, m: int) -> (r: (int, int))
    requires
        0 <= m < mentions(instructions).len(),
        mentions(instructions)[m].is_signer,
    ensures
        0 <= r.0 < instructions.len(),
        0 <= r.1 < instructions[r.0].accounts.len(),
        instructions[r.0].accounts[r.1] == mentions(instructions)[m],
    decreases instructions.len(),
{
    let less = instructions.drop_last();
    let rest = mentions(less);
    let n = instructions.len() - 1;
    if m < rest.len() {
        let r = lemma_signer_origin(less, m);
        assert(less[r.0] == instructions[r.0]);
        r
    } else {
        (n, m - rest.len() - 1)
    }
}

/// An account of an instruction is among the mentions.
proof fn lemma_account_mentioned(instructions: Seq<RawInstructionData>, i: int, j: int) -> (m: int)
    requires
        0 <= i < instructions.len(),
        0 <= j < instructions[i].accounts.len(),
    ensures
        0 <= m < mentions(instructions).len(),
        mentions(instructions)[m] == instructions[i].accounts[j],
    decreases instructions.len(),
{
    let less = instructions.drop_last();
    let rest = mentions(less);
    if i < instructions.len() - 1 {
        assert(less[i] == instructions[i]);
        let m = lemma_account_mentioned(less, i, j);
        assert(mentions(instructions)[m] == rest[m]);
        m
    } else {
        let m = rest.len() + 1 + j;
        assert(mentions(instructions)[m] == instructions[i].accounts[j]);
        m
    }
}

/// The instructions ask no one but this key to sign.
pub open spec fn only_asks(instructions: Seq<RawInstructionData>, key: Pubkey) -> bool {
    forall|i: int, j: int|
        #![trigger instructions[i].accounts[j]]
        0 <= i < instructions.len() && 0 <= j < instructions[i].accounts.len()
            && instructions[i].accounts[j].is_signer ==> instructions[i].accounts[j].pubkey == key
}

/// A built transaction has an empty signature for each that it requires, requires that of the
/// payer, and requires no other exactly where the instructions ask no one else to sign.
pub proof fn built_transactions_wait_for_their_signers(
    tx: TransactionData,
    instructions: Seq<RawInstructionData>,
    payer: Pubkey,
)
    requires
        is_built(tx, instructions, payer),
    ensures
        tx.signatures == Seq::new(tx.message.required_signatures, |i: int| blank(64)),
        requires_signature_of(tx.message, payer@),
        tx.message.required_signatures == 1 <==> only_asks(instructions, payer),
        only_asks(instructions, payer) ==> forall|key: Seq<u8>| #[trigger]
            requires_signature_of(tx.message, key) <==> key == payer@,
{
    let ms = mentions(instructions);
    let keys = tx.message.keys;
    let signers = signer_keys(instructions, payer);
    assert(tx.signatures.len() == shape(tx).signatures);
    assert(tx.message.required_signatures == shape(tx).required_signatures);
    assert(tx.signatures =~= Seq::new(tx.message.required_signatures, |i: int| blank(64)));
    assert(keys[0]@ == payer@);
    if only_asks(instructions, payer) {
        assert forall|key: Pubkey| signs(ms, key) implies key == payer by {
            let m = choose|m: int|
                0 <= m < ms.len() && (#[trigger] ms[m]).pubkey == key && ms[m].is_signer;
            let (i, j) = lemma_signer_origin(instructions, m);
            assert(instructions[i].accounts[j].pubkey == payer);
        }
        assert(signers =~= Set::empty().insert(payer));
        assert(signers.len() == 1);
        assert forall|key: Seq<u8>| #[trigger] requires_signature_of(tx.message, key) <==> key
            == payer@ by {
            if key == payer@ {
                assert(keys[0]@ == key);
            }
        }
    }
    if tx.message.required_signatures == 1 {
        assert forall|i: int, j: int|
            #![trigger instructions[i].accounts[j]]
            0 <= i < instructions.len() && 0 <= j < instructions[i].accounts.len()
                && instructions[i].accounts[j].is_signer implies instructions[i].accounts[j].pubkey
            == payer by {
            let m = lemma_account_mentioned(instructions, i, j);
            let key = instructions[i].accounts[j].pubkey;
            assert(ms[m].pubkey == key && ms[m].is_signer);
            assert(signers.contains(key));
            let first = keys.take(1);
            assert(first.to_set().contains(key));
            let k = choose|k: int| 0 <= k < first.len() && first[k] == key;
            assert(k == 0);
        }
    }
}

/// Where a built transaction waits for its payer alone, the payer signs it over any blockhash, and
/// it then holds the payer's signature and no other. The one exception is a signature that is empty.
pub proof fn the_payer_signs(
    tx: TransactionData,
    instructions: Seq<RawInstructionData>,
    payer: Pubkey,
    signature: Seq<u8>,
    blockhash: Seq<u8>,
)
    requires
        is_built(tx, instructions, payer),
        only_asks(instructions, payer),
    ensures
        signing(tx, payer@, signature, blockhash) == if signature == blank(64) {
            None
        } else {
            Some(
                TransactionData {
                    signatures: seq![signature],
                    message: over(tx.message, blockhash),
                },
            )
        },
{
    built_transactions_wait_for_their_signers(tx, instructions, payer);
    lemma_signer_index(tx.message, payer@, 0);
    let signed = with_signature(tx, payer@, signature, blockhash);
    assert(signer_index(tx.message, payer@) == 0);
    assert(signed.signatures =~= seq![signature]);
    assert(signed.signatures[0] == signature);
    assert(fully_signed(signed) <==> signature != blank(64));
}

/// One key pair does not sign for two: a fresh transaction that requires more signatures than one
/// is not fully signed by any single key.
pub proof fn one_key_does_not_sign_for_two(
    tx: TransactionData,
    instructions: Seq<RawInstructionData>,
    payer: Pubkey,
    key: Seq<u8>,
    signature: Seq<u8>,
    blockhash: Seq<u8>,
)
    requires
        is_built(tx, instructions, payer),
        tx.message.required_signatures >= 2,
    ensures
        signing(tx, key, signature, blockhash) is None,
{
    built_transactions_wait_for_their_signers(tx, instructions, payer);
    let i: int = if signer_index(tx.message, key) == 0 {
        1
    } else {
        0
    };
    assert(tx.signatures[i] == blank(64));
    assert(kept_signatures(tx, blockhash)[i] == blank(64));
    why_signing_fails(tx, key, signature, blockhash);
}

/// A mention is of the program of an instruction, which is neither asked to sign nor written, or is
/// an account of one.
proof fn lemma_mention_origin(instructions: Seq<RawInstructionData>, m: int) -> (r: (int, int))
    requires
        0 <= m < mentions(instructions).len(),
    ensures
        0 <= r.0 < instructions.len(),
        -1 <= r.1 < instructions[r.0].accounts.len(),
        r.1 >= 0 ==> mentions(instructions)[m] == instructions[r.0].accounts[r.1],
        r.1 < 0 ==> mentions(instructions)[m] == (AccountMeta {
            pubkey: instructions[r.0].program_id,
            is_signer: false,
            is_writable: false,
        }),
    decreases instructions.len(),
{
    let less = instructions.drop_last();
    let rest = mentions(less);
    let n = instructions.len() - 1;
    if m < rest.len() {
        let r = lemma_mention_origin(less, m);
        assert(less[r.0] == instructions[r.0]);
        assert(mentions(instructions)[m] == rest[m]);
        r
    } else {
        (n, m - rest.len() - 1)
    }
}

/// The program of an instruction is among the mentions.
proof fn lemma_program_mentioned(instructions: Seq<RawInstructionData>, i: int) -> (m: int)
    requires
        0 <= i < instructions.len(),
    ensures
        0 <= m < mentions(instructions).len(),
        mentions(instructions)[m].pubkey == instructions[i].program_id,
    decreases instructions.len(),
{
    let less = instructions.drop_last();
    let rest = mentions(less);
    if i < instructions.len() - 1 {
        assert(less[i] == instructions[i]);
        let m = lemma_program_mentioned(less, i);
        assert(mentions(instructions)[m] == rest[m]);
        m
    } else {
        rest.len() as int
    }
}

/// Which keys a transaction has, and what for: a key has to sign where it pays or an account of an
/// instruction says so; it is a key of the transaction where it pays or is the program or an account
/// of an instruction; and of the keys that do not pay, those are only read that no account of an
/// instruction says to write.
pub proof fn keys_are_used_as_the_instructions_say(
    instructions: Seq<RawInstructionData>,
    payer: Pubkey,
    key: Pubkey,
)
    ensures
        signer_keys(instructions, payer).contains(key) <==> key == payer || exists|i: int, j: int|
            #![trigger instructions[i].accounts[j]]
            0 <= i < instructions.len() && 0 <= j < instructions[i].accounts.len()
                && instructions[i].accounts[j].pubkey == key
                && instructions[i].accounts[j].is_signer,
        all_keys(instructions, payer).contains(key) <==> key == payer || (exists|i: int|
            0 <= i < instructions.len() && (#[trigger] instructions[i]).program_id == key) || (
        exists|i: int, j: int|
            #![trigger instructions[i].accounts[j]]
            0 <= i < instructions.len() && 0 <= j < instructions[i].accounts.len()
                && instructions[i].accounts[j].pubkey == key),
        writes(mentions(instructions), key) <==> exists|i: int, j: int|
            #![trigger instructions[i].accounts[j]]
            0 <= i < instructions.len() && 0 <= j < instructions[i].accounts.len()
                && instructions[i].accounts[j].pubkey == key
                && instructions[i].accounts[j].is_writable,
        read_only_signers(instructions, payer).contains(key) <==> key != payer && signer_keys(
            instructions,
            payer,
        ).contains(key) && !writes(mentions(instructions), key),
        read_only_keys(instructions, payer).contains(key) <==> key != payer && all_keys(
            instructions,
            payer,
        ).contains(key) && !signer_keys(instructions, payer).contains(key) && !writes(
            mentions(instructions),
            key,
        ),
{
    let ms = mentions(instructions);
    assert forall|m: int| 0 <= m < ms.len()
        && (#[trigger] ms[m]).pubkey == key implies (exists|i: int|
        0 <= i < instructions.len() && (#[trigger] instructions[i]).program_id == key
            && !ms[m].is_signer
            && !ms[m].is_writable) || (exists|i: int, j: int|
        #![trigger instructions[i].accounts[j]]
        0 <= i < instructions.len() && 0 <= j < instructions[i].accounts.len()
            && instructions[i].accounts[j] == ms[m]) by {
        let (i, j) = lemma_mention_origin(instructions, m);
        if j >= 0 {
            assert(instructions[i].accounts[j] == ms[m]);
        } else {
            assert(instructions[i].program_id == key);
        }
    }
    assert forall|i: int, j: int|
        #![trigger instructions[i].accounts[j]]
        0 <= i < instructions.len() && 0 <= j < instructions[i].accounts.len()
            && instructions[i].accounts[j].pubkey == key implies {
        &&& mentioned(ms, key)
        &&& instructions[i].accounts[j].is_signer ==> signs(ms, key)
        &&& instructions[i].accounts[j].is_writable ==> writes(ms, key)
    } by {
        let m = lemma_account_mentioned(instructions, i, j);
        assert(ms[m].pubkey == key);
    }
    assert forall|i: int|
        0 <= i < instructions.len()
            && (#[trigger] instructions[i]).program_id == key implies mentioned(
        ms,
        key,
    ) by {
        let m = lemma_program_mentioned(instructions, i);
        assert(ms[m].pubkey == key);
    }
}

/// Instructions go into one transaction unless more than 255 keys have to sign or more than 255
/// keys neither sign nor are written.
pub proof fn only_too_many_keys_keep_instructions_apart(
    instructions: Seq<RawInstructionData>,
    payer: Pubkey,
)
    ensures
        compiles(instructions, payer) <==> !(signer_keys(instructions, payer).len() > 255
            || read_only_keys(instructions, payer).len() > 255),
{
}

/// A transaction can be signed unless it has fewer signatures than it requires, or has more than
/// 65535 keys or instructions, or an instruction with more than that many accounts or bytes.
pub proof fn only_missing_room_keeps_a_transaction_from_signing(tx: TransactionData)
    ensures
        signable(shape(tx)) <==> {
            &&& tx.message.required_signatures <= tx.signatures.len()
            &&& tx.message.keys.len() <= 65535
            &&& tx.message.instructions.len() <= 65535
            &&& forall|i: int|
                0 <= i < tx.message.instructions.len() ==> (
                #[trigger] tx.message.instructions[i]).accounts.len() <= 65535
                    && tx.message.instructions[i].data.len() <= 65535
        },
{
    let s = shape(tx);
    assert forall|i: int| 0 <= i < s.instructions.len() implies #[trigger] s.instructions[i] == (
        tx.message.instructions[i].accounts.len(),
        tx.message.instructions[i].data.len(),
    ) by {}
    if signable(s) {
        assert forall|i: int| 0 <= i < tx.message.instructions.len() implies (
        #[trigger] tx.message.instructions[i]).accounts.len() <= 65535
            && tx.message.instructions[i].data.len() <= 65535 by {
            assert(s.instructions[i].0 <= MAX_WIRE_LEN);
        }
    }
}

/// A missing signature or blockhash is all zero bytes.
pub proof fn what_is_missing_is_zero(len: nat, i: int)
    requires
        0 <= i < len,
    ensures
        blank(len).len() == len,
        blank(len)[i] == 0,
{
}

/// A signed transaction carries the message that it had, over the new blockhash, and the new
/// signature in the first place of the key among those that have to sign. Every other signature is
/// what it was, and none is missing.
pub proof fn signing_touches_only_the_keys_own_place(
    tx: TransactionData,
    key: Seq<u8>,
    signature: Seq<u8>,
    blockhash: Seq<u8>,
    p: int,
)
    requires
        tx.message.required_signatures <= tx.signatures.len(),
        signing(tx, key, signature, blockhash) is Some,
        0 <= p < tx.message.required_signatures,
        tx.message.keys[p]@ == key,
        forall|j: int| 0 <= j < p ==> (#[trigger] tx.message.keys[j])@ != key,
    ensures
        ({
            let signed = signing(tx, key, signature, blockhash)->0;
            &&& signed.message.required_signatures == tx.message.required_signatures
            &&& signed.message.readonly_signed == tx.message.readonly_signed
            &&& signed.message.readonly_unsigned == tx.message.readonly_unsigned
            &&& signed.message.keys == tx.message.keys
            &&& signed.message.instructions == tx.message.instructions
            &&& signed.message.blockhash == blockhash
            &&& signed.signatures.len() == tx.signatures.len()
            &&& signed.signatures[p] == signature
            &&& forall|i: int|
                0 <= i < tx.signatures.len() ==> #[trigger] signed.signatures[i] != blank(64) && (i
                    == p || signed.signatures[i] == tx.signatures[i])
        }),
{
    signing_keeps_the_rest(tx, key, signature, blockhash);
    let q = signer_index(tx.message, key);
    assert(q == p) by {
        if p < q {
            assert(tx.message.keys[p]@ != key);
        }
        if q < p {
            assert(tx.message.keys[q]@ != key);
        }
    }
}

/// A key signs whenever it has to, its signature is not empty, and every other signature is there
/// already, over the same blockhash.
pub proof fn the_last_missing_signer_signs(
    tx: TransactionData,
    key: Seq<u8>,
    signature: Seq<u8>,
    blockhash: Seq<u8>,
    p: int,
)
    requires
        tx.message.required_signatures <= tx.signatures.len(),
        tx.message.required_signatures <= tx.message.keys.len(),
        0 <= p < tx.message.required_signatures,
        tx.message.keys[p]@ == key,
        forall|j: int| 0 <= j < p ==> (#[trigger] tx.message.keys[j])@ != key,
        signature != blank(64),
        tx.signatures.len() == 1 || tx.message.blockhash == blockhash && forall|i: int|
            0 <= i < tx.signatures.len() && i != p ==> #[trigger] tx.signatures[i] != blank(64),
    ensures
        signing(tx, key, signature, blockhash) is Some,
{
    lemma_signer_index(tx.message, key, p);
    let q = signer_index(tx.message, key);
    assert(q == p) by {
        if p < q {
            assert(tx.message.keys[p]@ != key);
        }
        if q < p {
            assert(tx.message.keys[q]@ != key);
        }
    }
    why_signing_fails(tx, key, signature, blockhash);
}

/// No key signs that does not have to.
pub proof fn strangers_do_not_sign(
    tx: TransactionData,
    key: Seq<u8>,
    signature: Seq<u8>,
    blockhash: Seq<u8>,
)
    requires
        forall|i: int|
            0 <= i < tx.message.required_signatures && i < tx.message.keys.len() ==> (
            #[trigger] tx.message.keys[i])@ != key,
    ensures
        signing(tx, key, signature, blockhash) is None,
{
}

impl View for TransactionShape {
    type V = TransactionShapeData;

    open spec fn view(&self) -> TransactionShapeData {
        TransactionShapeData {
            signatures: self.signatures as nat,
            required_signatures: self.required_signatures as nat,
            keys: self.keys as nat,
            instructions: self.instructions@.map_values(
                |ix: InstructionShape| (ix.accounts as nat, ix.data as nat),
            ),
        }
    }
}

/// The largest length that a serialised transaction can state.
pub const MAX_WIRE_LEN: usize = 65535;

/// A transaction can be signed: it has room for the signatures that it requires, and no part of it
/// is too long to serialise.
pub open spec fn signable(shape: TransactionShapeData) -> bool {
    &&& shape.required_signatures <= shape.signatures
    &&& shape.keys <= MAX_WIRE_LEN
    &&& shape.instructions.len() <= MAX_WIRE_LEN
    &&& forall|i: int|
        0 <= i < shape.instructions.len() ==> (#[trigger] shape.instructions[i]).0 <= MAX_WIRE_LEN
            && shape.instructions[i].1 <= MAX_WIRE_LEN
}

/// Instructions short enough for the transaction of them to be serialised.
pub open spec fn wire_sized(instructions: Seq<RawInstructionData>, payer: Pubkey) -> bool {
    &&& all_keys(instructions, payer).len() <= MAX_WIRE_LEN
    &&& instructions.len() <= MAX_WIRE_LEN
    &&& forall|i: int|
        0 <= i < instructions.len() ==> (#[trigger] instructions[i]).accounts.len() <= MAX_WIRE_LEN
            && instructions[i].data.len() <= MAX_WIRE_LEN
}

impl TransactionShape {
    /// Whether a transaction of this shape can be signed.
    pub fn is_signable(&self) -> (r: bool)
        ensures
            r == signable(self@),
    {
        if self.required_signatures > self.signatures || self.keys > MAX_WIRE_LEN
            || self.instructions.len() > MAX_WIRE_LEN {
            return false;
        }
        let mut i: usize = 0;
        while i < self.instructions.len()
            invariant
                0 <= i <= self.instructions@.len(),
                forall|k: int|
                    0 <= k < i ==> (#[trigger] self@.instructions[k]).0 <= MAX_WIRE_LEN
                        && self@.instructions[k].1 <= MAX_WIRE_LEN,
            decreases self.instructions@.len() - i,
        {
            let ghost shape = self@.instructions[i as int];
            if self.instructions[i].accounts > MAX_WIRE_LEN || self.instructions[i].data
                > MAX_WIRE_LEN {
                assert(shape.0 > MAX_WIRE_LEN || shape.1 > MAX_WIRE_LEN);
                return false;
            }
            i += 1;
        }
        true
    }
}

/// Collects the mentions of keys.
fn collect_mentions(instructions: &Vec<RawInstruction>) -> (r: Vec<AccountMeta>)
    ensures
        r@ == mentions(raw_views(instructions@)),
{
    let ghost views = raw_views(instructions@);
    let mut out: Vec<AccountMeta> = Vec::new();
    let mut i: usize = 0;
    while i < instructions.len()
        invariant
            0 <= i <= instructions@.len(),
            views == raw_views(instructions@),
            out@ =~= mentions(views.take(i as int)),
        decreases instructions@.len() - i,
    {
        let ix: &RawInstruction = &instructions[i];
        proof {
            assert(views.take(i + 1).drop_last() =~= views.take(i as int));
            assert(views.take(i + 1).last() == ix@);
        }
        out.push(AccountMeta { pubkey: ix.program_id, is_signer: false, is_writable: false });
        let ghost start = out@;
        let mut j: usize = 0;
        while j < ix.accounts.len()
            invariant
                0 <= j <= ix.accounts@.len(),
                out@ =~= start + ix.accounts@.take(j as int),
            decreases ix.accounts@.len() - j,
        {
            out.push(ix.accounts[j]);
            j += 1;
        }
        assert(ix.accounts@.take(j as int) =~= ix.accounts@);
        i += 1;
    }
    assert(views.take(i as int) =~= views);
    out
}

/// Whether a key is in a list.
fn contains_key(keys: &Vec<Pubkey>, key: &Pubkey) -> (r: bool)
    ensures
        r == keys@.contains(*key),
{
    let mut i: usize = 0;
    while i < keys.len()
        invariant
            0 <= i <= keys@.len(),
            forall|k: int| 0 <= k < i ==> keys@[k] != *key,
        decreases keys@.len() - i,
    {
        if keys[i].same(key) {
            assert(keys@[i as int] == *key);
            return true;
        }
        i += 1;
    }
    false
}

/// Whether some mention asks a key to sign, and whether some mention asks to write to it.
fn key_uses(metas: &Vec<AccountMeta>, key: &Pubkey) -> (r: (bool, bool))
    ensures
        r.0 == signs(metas@, *key),
        r.1 == writes(metas@, *key),
{
    let mut signer: bool = false;
    let mut writable: bool = false;
    let mut i: usize = 0;
    while i < metas.len()
        invariant
            0 <= i <= metas@.len(),
            signer ==> signs(metas@, *key),
            writable ==> writes(metas@, *key),
            !signer ==> forall|k: int|
                0 <= k < i && (#[trigger] metas@[k]).pubkey == *key ==> !metas@[k].is_signer,
            !writable ==> forall|k: int|
                0 <= k < i && (#[trigger] metas@[k]).pubkey == *key ==> !metas@[k].is_writable,
        decreases metas@.len() - i,
    {
        if metas[i].pubkey.same(key) {
            if metas[i].is_signer {
                assert(metas@[i as int].pubkey == *key && metas@[i as int].is_signer);
                signer = true;
            }
            if metas[i].is_writable {
                assert(metas@[i as int].pubkey == *key && metas@[i as int].is_writable);
                writable = true;
            }
        }
        i += 1;
    }
    (signer, writable)
}

/// Lists the keys that have to sign.
fn list_signers(metas: &Vec<AccountMeta>, payer: &Pubkey) -> (r: Vec<Pubkey>)
    ensures
        r@.no_duplicates(),
        forall|key: Pubkey|
            #[trigger] r@.contains(key) <==> (key == *payer || signs(metas@, key)),
{
    let mut out: Vec<Pubkey> = Vec::new();
    out.push(*payer);
    assert(out@[0] == *payer);
    let mut i: usize = 0;
    while i < metas.len()
        invariant
            0 <= i <= metas@.len(),
            out@.no_duplicates(),
            out@.contains(*payer),
            forall|key: Pubkey|
                #[trigger] out@.contains(key) ==> key == *payer || signs(metas@, key),
            forall|k: int|
                0 <= k < i && (#[trigger] metas@[k]).is_signer ==> out@.contains(metas@[k].pubkey),
        decreases metas@.len() - i,
    {
        let ghost before = out@;
        if metas[i].is_signer {
            let key: Pubkey = metas[i].pubkey;
            assert(metas@[i as int].pubkey == key);
            if !contains_key(&out, &key) {
                out.push(key);
                proof {
                    lemma_push_key(before, key);
                }
            }
        }
        i += 1;
    }
    out
}

/// Appending a new key to a list without repetition.
proof fn lemma_push_key(keys: Seq<Pubkey>, key: Pubkey)
    requires
        keys.no_duplicates(),
        !keys.contains(key),
    ensures
        keys.push(key).no_duplicates(),
        forall|k: Pubkey| #[trigger] keys.push(key).contains(k) <==> keys.contains(k) || k == key,
{
    let more = keys.push(key);
    assert forall|k: Pubkey| #[trigger] more.contains(k) <==> keys.contains(k) || k == key by {
        if keys.contains(k) {
            let i = choose|i: int| 0 <= i < keys.len() && keys[i] == k;
            assert(more[i] == k);
        }
        assert(more[keys.len() as int] == key);
        if more.contains(k) {
            let i = choose|i: int| 0 <= i < more.len() && more[i] == k;
            if i < keys.len() {
                assert(keys[i] == k);
            }
        }
    }
    assert forall|i: int, j: int| 0 <= i < more.len() && 0 <= j < more.len()
        && i != j implies more[i]
        != more[j] by {
        if i < keys.len() {
            assert(more[i] == keys[i]);
        }
        if j < keys.len() {
            assert(more[j] == keys[j]);
        }
    }
}

/// Lists the keys that neither sign nor are written to.
fn list_read_only(metas: &Vec<AccountMeta>, payer: &Pubkey) -> (r: Vec<Pubkey>)
    ensures
        r@.no_duplicates(),
        forall|key: Pubkey|
            #[trigger] r@.contains(key) <==> (key != *payer && mentioned(metas@, key) && !signs(
                metas@,
                key,
            ) && !writes(metas@, key)),
{
    let mut out: Vec<Pubkey> = Vec::new();
    let mut i: usize = 0;
    while i < metas.len()
        invariant
            0 <= i <= metas@.len(),
            out@.no_duplicates(),
            forall|key: Pubkey| #[trigger]
                out@.contains(key) ==> key != *payer && mentioned(metas@, key) && !signs(
                    metas@,
                    key,
                ) && !writes(metas@, key),
            forall|k: int|
                0 <= k < i && (#[trigger] metas@[k]).pubkey != *payer && !signs(
                    metas@,
                    metas@[k].pubkey,
                ) && !writes(metas@, metas@[k].pubkey) ==> out@.contains(metas@[k].pubkey),
        decreases metas@.len() - i,
    {
        let ghost before = out@;
        let key: Pubkey = metas[i].pubkey;
        assert(metas@[i as int].pubkey == key);
        let (signer, writable) = key_uses(metas, &key);
        if !key.same(payer) && !signer && !writable {
            if !contains_key(&out, &key) {
                out.push(key);
                proof {
                    lemma_push_key(before, key);
                }
            }
        }
        i += 1;
    }
    out
}

/// Whether instructions go into one transaction.
pub fn check_compiles(instructions: &Vec<RawInstruction>, payer: &Pubkey) -> (r: bool)
    ensures
        r == compiles(raw_views(instructions@), *payer),
{
    let metas: Vec<AccountMeta> = collect_mentions(instructions);
    let signers: Vec<Pubkey> = list_signers(&metas, payer);
    let read_only: Vec<Pubkey> = list_read_only(&metas, payer);
    proof {
        signers@.unique_seq_to_set();
        read_only@.unique_seq_to_set();
        assert(signers@.to_set() =~= signer_keys(raw_views(instructions@), *payer));
        assert(read_only@.to_set() =~= read_only_keys(raw_views(instructions@), *payer));
    }
    signers.len() <= 255 && read_only.len() <= 255
}

} // verus!
