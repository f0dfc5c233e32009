//! Bitcoin transactions in plain values, and the signing of their
//! inputs through a partially signed transaction of the `bitcoin` crate.

use vstd::prelude::*;
use bitcoin::bip32::{ChildNumber, DerivationPath, Fingerprint};
use bitcoin::consensus::deserialize;
use bitcoin::psbt::{Input, Psbt, PsbtSighashType};
use bitcoin::secp256k1::PublicKey;
use bitcoin::{ScriptBuf, TxOut};
use crate::bytes::{copy_bytes, lemma_bytes_deep_view};
use crate::error::SwapError;
use crate::hexcode::{encode, hex_chars};
use crate::state::{
    btc_path, btc_pubkey_of, btc_steps, can_descend, fingerprint_of, GauloiState,
};

verus! {

/// An input of a transaction: the output it spends, and what unlocks it.
#[derive(Debug, Clone)]
pub struct TxInput {
    /// Hash of the transaction that made the output spent.
    pub txid: [u8; 32],
    /// Index of the output spent in that transaction.
    pub vout: u32,
    /// The sequence number, which carries a relative lock where it is
    /// not `SEQUENCE_FINAL`.
    pub sequence: u32,
    /// The witness stack, bottom first.
    pub witness: Vec<Vec<u8>>,
}

/// An output of a transaction.
#[derive(Debug, Clone)]
pub struct TxOutput {
    /// Value in satoshis.
    pub value: u64,
    /// The script that must be satisfied to spend the output.
    pub script_pubkey: Vec<u8>,
}

/// A Bitcoin transaction, in plain values.
#[derive(Debug, Clone)]
pub struct Transaction {
    pub version: i32,
    pub lock_time: u32,
    pub input: Vec<TxInput>,
    pub output: Vec<TxOutput>,
}

/// A `TxInput` as a mathematical value.
pub struct TxInputView {
    pub txid: Seq<u8>,
    pub vout: u32,
    pub sequence: u32,
    pub witness: Seq<Seq<u8>>,
}

/// A `TxOutput` as a mathematical value.
pub struct TxOutputView {
    pub value: u64,
    pub script_pubkey: Seq<u8>,
}

/// A `Transaction` as a mathematical value.
pub struct TransactionView {
    pub version: i32,
    pub lock_time: u32,
    pub input: Seq<TxInputView>,
    pub output: Seq<TxOutputView>,
}

impl DeepView for TxInput {
    type V = TxInputView;

    open spec fn deep_view(&self) -> TxInputView {
        TxInputView {
            txid: self.txid@,
            vout: self.vout,
            sequence: self.sequence,
            witness: self.witness.deep_view(),
        }
    }
}

impl DeepView for TxOutput {
    type V = TxOutputView;

    open spec fn deep_view(&self) -> TxOutputView {
        TxOutputView { value: self.value, script_pubkey: self.script_pubkey@ }
    }
}

impl View for Transaction {
    type V = TransactionView;

    open spec fn view(&self) -> TransactionView {
        TransactionView {
            version: self.version,
            lock_time: self.lock_time,
            input: self.input.deep_view(),
            output: self.output.deep_view(),
        }
    }
}

/// Sequence number of an input that sets no relative lock.
pub const SEQUENCE_FINAL: u32 = 0xffff_ffff;

/// `tx` with the witness of each input replaced.
pub open spec fn with_witnesses(tx: TransactionView, witnesses: Seq<Seq<Seq<u8>>>) -> TransactionView {
    TransactionView {
        version: tx.version,
        lock_time: tx.lock_time,
        input: Seq::new(
            tx.input.len(),
            |i: int|
                TxInputView {
                    txid: tx.input[i].txid,
                    vout: tx.input[i].vout,
                    sequence: tx.input[i].sequence,
                    witness: witnesses[i],
                },
        ),
        output: tx.output,
    }
}

/// One witness for each signature: the signature, followed by `tail`.
pub open spec fn witnesses_of(signatures: Seq<Seq<u8>>, tail: Seq<Seq<u8>>) -> Seq<Seq<Seq<u8>>> {
    Seq::new(signatures.len(), |i: int| seq![signatures[i]] + tail)
}

/// `plan` with each input unlocked by its signature followed by `tail`.
pub open spec fn signed_with(plan: TransactionView, signatures: Seq<Seq<u8>>, tail: Seq<Seq<u8>>) -> TransactionView {
    with_witnesses(plan, witnesses_of(signatures, tail))
}

/// The bytes of a script that may be absent.
pub open spec fn optional_bytes(bytes: Option<Vec<u8>>) -> Option<Seq<u8>> {
    match bytes {
        Some(b) => Some(b@),
        None => None,
    }
}

/// The consensus encoding of a transaction.
pub uninterp spec fn wire_bytes(tx: TransactionView) -> Seq<u8>;

/// The signature hash type that commits to every input and output.
pub const SIGHASH_ALL: u32 = 1;

/// The serialized partially signed transaction that wraps an unsigned
/// transaction, with what each input spends, the script behind a script
/// hash where there is one, the key that is to sign with the path that
/// leads to it, and the signature hash type asked for.
pub uninterp spec fn psbt_of(
    unsigned: Seq<u8>,
    spent: Seq<TxOutputView>,
    witness_script: Option<Seq<u8>>,
    pubkey: Seq<u8>,
    fingerprint: Seq<u8>,
    path: Seq<u32>,
    sighash_type: u32,
) -> Option<Seq<u8>>;

/// The signatures that each input of a serialized partially signed
/// transaction holds once the master key has signed it, those of one
/// input in the order of the keys they belong to; `None` where the
/// bytes or the key are none, or signing failed.
pub uninterp spec fn partial_signatures_of(psbt: Seq<u8>, master: Seq<u8>) -> Option<
    Seq<Seq<Seq<u8>>>,
>;

/// The first item of each list: `None` where a list is empty.
pub open spec fn first_of_each(lists: Seq<Seq<Seq<u8>>>) -> Option<Seq<Seq<u8>>> {
    if forall|i: int| 0 <= i < lists.len() ==> (#[trigger] lists[i]).len() > 0 {
        Some(Seq::new(lists.len(), |i: int| lists[i][0]))
    } else {
        None
    }
}

/// The signature of each input after signing with the master key, the
/// first where an input got several; `None` where signing failed or an
/// input got none.
pub open spec fn signatures_of(psbt: Seq<u8>, master: Seq<u8>) -> Option<Seq<Seq<u8>>> {
    match partial_signatures_of(psbt, master) {
        Some(lists) => first_of_each(lists),
        None => None,
    }
}

/// Whether `psbt` was made for signing with a key that `master` can
/// reach: by a path that the depth of `master` leaves room for.
pub open spec fn signable(psbt: Seq<u8>, master: Seq<u8>) -> bool {
    exists|
        unsigned: Seq<u8>,
        spent: Seq<TxOutputView>,
        witness_script: Option<Seq<u8>>,
        pubkey: Seq<u8>,
        fingerprint: Seq<u8>,
        path: Seq<u32>,
        sighash_type: u32,
    |
        #[trigger] psbt_of(
            unsigned,
            spent,
            witness_script,
            pubkey,
            fingerprint,
            path,
            sighash_type,
        ) == Some(psbt) && can_descend(master, path.len())
}

/// `bitcoin::consensus::encode::serialize` of the transaction built from
/// the fields of `tx`, with no script signatures. Trusted: the bytes
/// depend on those fields alone.
#[verifier::external_body]
fn consensus_bytes(tx: &Transaction) -> (bytes: Vec<u8>)
    ensures
        bytes@ == wire_bytes(tx@),
{
    let input = tx.input.iter().map(|i| bitcoin::TxIn {
        previous_output: bitcoin::OutPoint::new(bitcoin::hashes::Hash::from_byte_array(i.txid), i.vout),
        script_sig: ScriptBuf::new(),
        sequence: bitcoin::Sequence(i.sequence),
        witness: bitcoin::Witness::from_slice(&i.witness),
    }).collect();
    let output = tx.output.iter().map(|o| TxOut {
        value: o.value,
        script_pubkey: o.script_pubkey.clone().into(),
    }).collect();
    let lock_time = bitcoin::absolute::LockTime::from_consensus(tx.lock_time);
    bitcoin::consensus::encode::serialize(&bitcoin::Transaction { version: tx.version, lock_time, input, output })
}

/// `Psbt::from_unsigned_tx` on the decoded transaction, each input then
/// described by its spent output, the witness script, the signing key
/// with its fingerprint and path, and the signature hash type; then
/// `Psbt::serialize`. Trusted: the bytes depend on the arguments alone.
#[verifier::external_body]
fn psbt_for_signing(
    unsigned: &Vec<u8>,
    spent: &Vec<TxOutput>,
    witness_script: &Option<Vec<u8>>,
    pubkey: &[u8; 33],
    fingerprint: &[u8; 4],
    path: &Vec<u32>,
    sighash_type: u32,
) -> (psbt: Option<Vec<u8>>)
    ensures
        match psbt {
            Some(bytes) => psbt_of(
                unsigned@,
                spent.deep_view(),
                optional_bytes(*witness_script),
                pubkey@,
                fingerprint@,
                path@,
                sighash_type,
            ) == Some(bytes@),
            None => psbt_of(
                unsigned@,
                spent.deep_view(),
                optional_bytes(*witness_script),
                pubkey@,
                fingerprint@,
                path@,
                sighash_type,
            ) is None,
        },
{
    let mut psbt = Psbt::from_unsigned_tx(deserialize(unsigned).ok()?).ok()?;
    let key = PublicKey::from_slice(pubkey).ok()?;
    let steps: DerivationPath = path.iter().map(|n| ChildNumber::from(*n)).collect();
    let source = (Fingerprint::from(*fingerprint), steps);
    psbt.inputs = spent.iter().map(|o| Input {
        witness_utxo: Some(TxOut { value: o.value, script_pubkey: o.script_pubkey.clone().into() }),
        bip32_derivation: [(key, source.clone())].into(),
        sighash_type: Some(PsbtSighashType::from_u32(sighash_type)),
        witness_script: witness_script.clone().map(ScriptBuf::from_bytes),
        ..Default::default()
    }).collect();
    Some(psbt.serialize())
}

/// `Psbt::deserialize`, `Psbt::sign` with the decoded master key, and
/// the partial signatures of each input. Trusted: the signatures
/// depend on the arguments alone. Signing walks the path that the
/// bytes name, one level for each step, which is why they must come
/// from `psbt_for_signing` with a path that the master key can descend.
#[verifier::external_body]
fn psbt_sign(psbt: &Vec<u8>, master: &[u8; 78]) -> (signatures: Option<Vec<Vec<Vec<u8>>>>)
    requires
        signable(psbt@, master@),
    ensures
        match signatures {
            Some(lists) => partial_signatures_of(psbt@, master@) == Some(lists.deep_view()),
            None => partial_signatures_of(psbt@, master@) is None,
        },
{
    let mut psbt = Psbt::deserialize(psbt).ok()?;
    let key = bitcoin::bip32::ExtendedPrivKey::decode(master).ok()?;
    psbt.sign(&key, &bitcoin::secp256k1::Secp256k1::new()).ok()?;
    Some(psbt.inputs.iter().map(|i| i.partial_sigs.values().map(|s| s.to_vec()).collect()).collect())
}

/// The first signature of each input; `None` where an input has none.
pub fn first_signatures(lists: &Vec<Vec<Vec<u8>>>) -> (r: Option<Vec<Vec<u8>>>)
    ensures
        match r {
            Some(firsts) => first_of_each(lists.deep_view()) == Some(firsts.deep_view()),
            None => first_of_each(lists.deep_view()) is None,
        },
{
    let ghost all = lists.deep_view();
    let mut firsts: Vec<Vec<u8>> = Vec::new();
    let mut i: usize = 0;
    while i < lists.len()
        invariant
            i <= lists.len(),
            all == lists.deep_view(),
            firsts@.len() == i,
            forall|j: int| 0 <= j < i ==> (#[trigger] all[j]).len() > 0,
            forall|j: int| 0 <= j < i ==> (#[trigger] firsts@[j])@ == all[j][0],
        decreases lists.len() - i,
    {
        assert(all[i as int] == lists@[i as int].deep_view());
        if lists[i].len() == 0 {
            return None;
        }
        let first = copy_bytes(lists[i][0].as_slice());
        proof {
            lemma_bytes_deep_view(lists@[i as int]@[0]);
            assert(all[i as int][0] == lists@[i as int]@[0].deep_view());
        }
        firsts.push(first);
        i += 1;
    }
    proof {
        assert forall|j: int| 0 <= j < firsts@.len() implies #[trigger] firsts.deep_view()[j]
            == all[j][0] by {
            lemma_bytes_deep_view(firsts@[j]);
        }
        assert(firsts.deep_view() =~= Seq::new(all.len(), |i: int| all[i][0]));
    }
    Some(firsts)
}

/// The signatures of the inputs of `plan` and the public key that they
/// verify against: `None` where the key material is unusable or an
/// input could not be signed.
pub open spec fn input_signatures(
    master: Seq<u8>,
    plan: TransactionView,
    spent: Seq<TxOutputView>,
    witness_script: Option<Seq<u8>>,
) -> Option<(Seq<Seq<u8>>, Seq<u8>)> {
    if btc_pubkey_of(master) is Some && fingerprint_of(master) is Some {
        let pubkey = btc_pubkey_of(master).unwrap();
        let psbt = psbt_of(
            wire_bytes(plan),
            spent,
            witness_script,
            pubkey,
            fingerprint_of(master).unwrap(),
            btc_path(),
            SIGHASH_ALL,
        );
        if psbt is Some && signatures_of(psbt.unwrap(), master) is Some && signatures_of(
            psbt.unwrap(),
            master,
        ).unwrap().len() == plan.input.len() {
            Some((signatures_of(psbt.unwrap(), master).unwrap(), pubkey))
        } else {
            None
        }
    } else {
        None
    }
}

/// Attaching witnesses changes neither the outputs nor what is spent.
pub proof fn lemma_witnesses_keep_amounts(tx: TransactionView, witnesses: Seq<Seq<Seq<u8>>>)
    ensures
        with_witnesses(tx, witnesses).output == tx.output,
        with_witnesses(tx, witnesses).input.len() == tx.input.len(),
        with_witnesses(tx, witnesses).version == tx.version,
        with_witnesses(tx, witnesses).lock_time == tx.lock_time,
{
}

impl Transaction {
    /// The consensus encoding of the transaction.
    pub fn serialize(&self) -> (bytes: Vec<u8>)
        ensures
            bytes@ == wire_bytes(self@),
    {
        consensus_bytes(self)
    }

    /// The consensus encoding in lower-case hexadecimal, as the block
    /// explorer takes it.
    pub fn to_hex(&self) -> (text: String)
        ensures
            text@ == hex_chars(wire_bytes(self@)),
    {
        let bytes = consensus_bytes(self);
        encode(bytes.as_slice())
    }
}

/// Signs every input of `plan` with the local Bitcoin key.
pub fn sign_inputs(
    state: &GauloiState,
    plan: &Transaction,
    spent: &Vec<TxOutput>,
    witness_script: &Option<Vec<u8>>,
) -> (r: Result<(Vec<Vec<u8>>, [u8; 33]), SwapError>)
    ensures
        match r {
            Ok((signatures, pubkey)) => signatures@.len() == plan.input@.len() && input_signatures(
                state.master_extended@,
                plan@,
                spent.deep_view(),
                optional_bytes(*witness_script),
            ) == Some((signatures.deep_view(), pubkey@)),
            Err(e) => e == SwapError::Keyring && input_signatures(
                state.master_extended@,
                plan@,
                spent.deep_view(),
                optional_bytes(*witness_script),
            ) is None,
        },
{
    let pubkey = match state.btc_address() {
        Ok(pubkey) => pubkey,
        Err(_) => { return Err(SwapError::Keyring); },
    };
    let fingerprint = match state.fingerprint() {
        Ok(fingerprint) => fingerprint,
        Err(_) => { return Err(SwapError::Keyring); },
    };
    let unsigned = consensus_bytes(plan);
    let path = btc_steps();
    match psbt_for_signing(
        &unsigned,
        spent,
        witness_script,
        &pubkey,
        &fingerprint,
        &path,
        SIGHASH_ALL,
    ) {
        Some(psbt) => match psbt_sign(&psbt, &state.master_extended) {
            Some(lists) => match first_signatures(&lists) {
                Some(signatures) => {
                    if signatures.len() == plan.input.len() {
                        Ok((signatures, pubkey))
                    } else {
                        Err(SwapError::Keyring)
                    }
                },
                None => Err(SwapError::Keyring),
            },
            None => Err(SwapError::Keyring),
        },
        None => Err(SwapError::Keyring),
    }
}

/// One witness for each signature: the signature, followed by `tail`.
fn make_witnesses(signatures: Vec<Vec<u8>>, tail: &Vec<Vec<u8>>) -> (witnesses: Vec<
    Vec<Vec<u8>>,
>)
    ensures
        witnesses@.len() == signatures@.len(),
        witnesses.deep_view() == witnesses_of(signatures.deep_view(), tail.deep_view()),
{
    let ghost all = signatures.deep_view();
    let ghost given = signatures@;
    let mut witnesses: Vec<Vec<Vec<u8>>> = Vec::new();
    for signature in it: signatures
        invariant
            it.seq() == given,
            all.len() == given.len(),
            forall|j: int| 0 <= j < given.len() ==> (#[trigger] given[j]).deep_view() == all[j],
            witnesses@.len() == it.index(),
            forall|j: int|
                0 <= j < witnesses@.len() ==> (#[trigger] witnesses@[j]).deep_view() == witnesses_of(
                    all,
                    tail.deep_view(),
                )[j],
    {
        let ghost first = signature.deep_view();
        let mut witness: Vec<Vec<u8>> = Vec::new();
        witness.push(signature);
        assert(witness.deep_view() =~= seq![first] + tail.deep_view().take(0));
        let mut k: usize = 0;
        while k < tail.len()
            invariant
                k <= tail.len(),
                witness.deep_view() == seq![first] + tail.deep_view().take(k as int),
            decreases tail.len() - k,
        {
            let ghost before = witness.deep_view();
            let item = copy_bytes(tail[k].as_slice());
            proof {
                lemma_bytes_deep_view(item);
                lemma_bytes_deep_view(tail@[k as int]);
            }
            witness.push(item);
            assert(witness.deep_view() =~= before.push(tail.deep_view()[k as int]));
            assert(witness.deep_view() =~= seq![first] + tail.deep_view().take(k + 1));
            k += 1;
        }
        assert(tail.deep_view().take(tail.len() as int) =~= tail.deep_view());
        witnesses.push(witness);
    }
    assert(witnesses.deep_view() =~= witnesses_of(all, tail.deep_view()));
    witnesses
}

/// Gives each input of `tx` its witness.
fn attach_witnesses(tx: Transaction, witnesses: Vec<Vec<Vec<u8>>>) -> (signed: Transaction)
    requires
        witnesses@.len() == tx.input@.len(),
    ensures
        signed@ == with_witnesses(tx@, witnesses.deep_view()),
{
    let ghost all = witnesses.deep_view();
    let ghost stacks = witnesses@;
    let mut input: Vec<TxInput> = Vec::new();
    for witness in it: witnesses
        invariant
            it.seq() == stacks,
            stacks.len() == tx.input@.len(),
            all.len() == stacks.len(),
            forall|j: int| 0 <= j < stacks.len() ==> (#[trigger] stacks[j]).deep_view() == all[j],
            input@.len() == it.index(),
            forall|j: int|
                0 <= j < input@.len() ==> (#[trigger] input@[j]).deep_view() == with_witnesses(
                    tx@,
                    all,
                ).input[j],
    {
        let unsigned = &tx.input[input.len()];
        input.push(
            TxInput {
                txid: unsigned.txid,
                vout: unsigned.vout,
                sequence: unsigned.sequence,
                witness,
            },
        );
    }
    let ghost before = tx@;
    let Transaction { version, lock_time, input: _, output } = tx;
    let signed = Transaction { version, lock_time, input, output };
    assert(signed.input.deep_view() =~= with_witnesses(before, all).input);
    signed
}

/// Gives each input of `plan` its witness: its signature, followed by
/// `tail`. `Keyring` where there is not one signature for each input.
pub fn finalize(plan: Transaction, signatures: Vec<Vec<u8>>, tail: &Vec<Vec<u8>>) -> (r: Result<
    Transaction,
    SwapError,
>)
    ensures
        match r {
            Ok(tx) => signatures@.len() == plan.input@.len() && tx@ == signed_with(
                plan@,
                signatures.deep_view(),
                tail.deep_view(),
            ),
            Err(e) => e == SwapError::Keyring && signatures@.len() != plan.input@.len(),
        },
{
    if signatures.len() != plan.input.len() {
        return Err(SwapError::Keyring);
    }
    Ok(attach_witnesses(plan, make_witnesses(signatures, tail)))
}

} // verus!
