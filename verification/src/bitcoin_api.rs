//! Unspent outputs, coin selection, and the funding, claim and refund
//! transactions of the hashed time-locked script.

use vstd::prelude::*;
use crate::bytes::{copy_bytes, lemma_bytes_deep_view};
use crate::error::SwapError;
use crate::hexcode::{decode, hex_bytes, is_hex};
use crate::state::{p2wsh_script, script_p2wsh, Address, GauloiState};
use crate::transaction::{
    finalize, input_signatures, sign_inputs, signed_with, Transaction, TransactionView, TxInput,
    TxInputView, TxOutput, TxOutputView, SEQUENCE_FINAL,
};

verus! {

/// What an unspent output holds.
#[derive(Debug, Clone)]
pub struct Vout {
    /// Value in satoshis.
    pub value: u64,
    /// The script that must be satisfied to spend the output.
    pub scriptpubkey: Vec<u8>,
}

/// An unspent output, with where it stands.
#[derive(Debug, Clone)]
pub struct RelevantTxInfo {
    /// Hash of the transaction that made the output.
    pub txid: [u8; 32],
    /// Index of the output in that transaction.
    pub spend_index: u16,
    pub vout: Vout,
}

/// An unspent output as a block explorer lists it.
#[derive(Debug, Clone)]
pub struct ListedUtxo {
    /// The transaction ID, in the hexadecimal form in which it is shown:
    /// the bytes of the hash, last first.
    pub txid: String,
    /// Index of the output in that transaction.
    pub vout: u16,
    /// Value in satoshis.
    pub value: u64,
}

/// The Bitcoin side of a swap, apart from the network.
#[derive(Debug, Clone, Copy, Default)]
pub struct BitcoinApi {}

/// Whether a text is a transaction ID as it is shown: 64 hexadecimal
/// digits.
pub open spec fn is_txid_text(text: Seq<char>) -> bool {
    is_hex(text) && text.len() == 64
}

/// The hash that a shown transaction ID stands for: its bytes, last
/// first.
pub open spec fn txid_of_text(text: Seq<char>) -> Seq<u8> {
    hex_bytes(text).reverse()
}

/// The hash that a shown transaction ID stands for, where the text is
/// one.
pub fn txid_from_text(text: &str) -> (txid: Option<[u8; 32]>)
    ensures
        match txid {
            Some(bytes) => is_txid_text(text@) && bytes@ == txid_of_text(text@),
            None => !is_txid_text(text@),
        },
{
    let shown = match decode(text) {
        Ok(bytes) => bytes,
        Err(_) => {
            return None;
        },
    };
    if shown.len() != 32 {
        return None;
    }
    let mut hash = [0u8; 32];
    let mut i: usize = 0;
    while i < 32
        invariant
            i <= 32,
            shown@.len() == 32,
            forall|j: int| 0 <= j < i ==> hash@[j] == shown@[31 - j],
        decreases 32 - i,
    {
        hash[i] = shown[31 - i];
        i += 1;
    }
    assert(hash@ =~= shown@.reverse());
    Some(hash)
}

/// The unspent outputs of `address` that a listing stands for.
pub open spec fn listed_outputs(listed: Seq<ListedUtxo>, script_pubkey: Seq<u8>) -> Option<
    Seq<RelevantTxInfoView>,
> {
    if forall|i: int| 0 <= i < listed.len() ==> is_txid_text((#[trigger] listed[i]).txid@) {
        Some(
            Seq::new(
                listed.len(),
                |i: int|
                    RelevantTxInfoView {
                        txid: txid_of_text(listed[i].txid@),
                        spend_index: listed[i].vout,
                        vout: VoutView { value: listed[i].value, scriptpubkey: script_pubkey },
                    },
            ),
        )
    } else {
        None
    }
}

/// An unspent output as a mathematical value.
pub struct RelevantTxInfoView {
    pub txid: Seq<u8>,
    pub spend_index: u16,
    pub vout: VoutView,
}

/// What an unspent output holds, as a mathematical value.
pub struct VoutView {
    pub value: u64,
    pub scriptpubkey: Seq<u8>,
}

impl DeepView for RelevantTxInfo {
    type V = RelevantTxInfoView;

    open spec fn deep_view(&self) -> RelevantTxInfoView {
        RelevantTxInfoView {
            txid: self.txid@,
            spend_index: self.spend_index,
            vout: VoutView { value: self.vout.value, scriptpubkey: self.vout.scriptpubkey@ },
        }
    }
}

/// The values of the outputs, in order.
pub open spec fn values_of(utxos: Seq<RelevantTxInfo>) -> Seq<nat> {
    Seq::new(utxos.len(), |i: int| utxos[i].vout.value as nat)
}

/// Sum of a sequence of amounts.
pub open spec fn sum(amounts: Seq<nat>) -> nat
    decreases amounts.len(),
{
    if amounts.len() == 0 {
        0
    } else {
        sum(amounts.drop_last()) + amounts.last()
    }
}

/// Total value of the outputs, in satoshis.
pub open spec fn total_value(utxos: Seq<RelevantTxInfo>) -> nat {
    sum(values_of(utxos))
}

/// The sum of the first `n + 1` amounts is the sum of the first `n`
/// plus the next one.
pub proof fn lemma_sum_take_next(amounts: Seq<nat>, n: int)
    requires
        0 <= n < amounts.len(),
    ensures
        sum(amounts.take(n + 1)) == sum(amounts.take(n)) + amounts[n],
{
    assert(amounts.take(n + 1).drop_last() =~= amounts.take(n));
}

/// A total of `u64` amounts is bounded by their number.
pub proof fn lemma_total_bound(utxos: Seq<RelevantTxInfo>, n: int)
    requires
        0 <= n <= utxos.len(),
    ensures
        sum(values_of(utxos).take(n)) <= n * 0xffff_ffff_ffff_ffff,
    decreases n,
{
    if n > 0 {
        lemma_total_bound(utxos, n - 1);
        lemma_sum_take_next(values_of(utxos), n - 1);
    }
}

/// The least number of amounts from `from + 1` on whose sum reaches
/// `value`; the number of all amounts where none does.
pub open spec fn reach(amounts: Seq<nat>, value: nat, from: nat) -> nat
    decreases amounts.len() - from,
{
    if from >= amounts.len() {
        amounts.len()
    } else if sum(amounts.take(from as int + 1)) >= value {
        from + 1
    } else {
        reach(amounts, value, from + 1)
    }
}

/// The outputs that greedy selection takes for `value`: the shortest
/// prefix, of one output at least, whose total reaches `value`; every
/// output where the total falls short.
pub open spec fn selected(utxos: Seq<RelevantTxInfo>, value: nat) -> Seq<RelevantTxInfo> {
    utxos.take(reach(values_of(utxos), value, 0) as int)
}

/// What `reach` finds is the first prefix that reaches the value.
pub proof fn lemma_reach(amounts: Seq<nat>, value: nat, from: nat)
    requires
        from <= amounts.len(),
    ensures
        from <= reach(amounts, value, from) <= amounts.len(),
        from < amounts.len() ==> from < reach(amounts, value, from),
        forall|n: int| from < n < reach(amounts, value, from) ==> sum(amounts.take(n)) < value,
        reach(amounts, value, from) == amounts.len() || sum(
            amounts.take(reach(amounts, value, from) as int),
        ) >= value,
    decreases amounts.len() - from,
{
    if from < amounts.len() && sum(amounts.take(from as int + 1)) < value {
        lemma_reach(amounts, value, from + 1);
    }
}

/// Inputs that spend `ins` in order, without witnesses.
pub open spec fn unsigned_inputs(ins: Seq<RelevantTxInfo>, sequence: u32) -> Seq<TxInputView> {
    Seq::new(
        ins.len(),
        |i: int|
            TxInputView {
                txid: ins[i].txid@,
                vout: ins[i].spend_index as u32,
                sequence,
                witness: Seq::empty(),
            },
    )
}

/// The unsigned funding transaction: `value` to the script `to`, and
/// what is left after the miner's fee back to `change`.
pub open spec fn funding_plan(
    ins: Seq<RelevantTxInfo>,
    to: Seq<u8>,
    change: Seq<u8>,
    value: u64,
    miner_fee: u64,
) -> TransactionView {
    TransactionView {
        version: 1,
        lock_time: 0,
        input: unsigned_inputs(ins, SEQUENCE_FINAL),
        output: seq![
            TxOutputView { value, script_pubkey: to },
            TxOutputView {
                value: (total_value(ins) - value - miner_fee) as u64,
                script_pubkey: change,
            },
        ],
    }
}

/// The unsigned transaction that sweeps `ins` to the script `to`, less
/// the miner's fee.
pub open spec fn sweep_plan(
    ins: Seq<RelevantTxInfo>,
    to: Seq<u8>,
    miner_fee: u64,
    version: i32,
    sequence: u32,
) -> TransactionView {
    TransactionView {
        version,
        lock_time: 0,
        input: unsigned_inputs(ins, sequence),
        output: seq![
            TxOutputView { value: (total_value(ins) - miner_fee) as u64, script_pubkey: to },
        ],
    }
}

/// The outputs that `ins` are declared to spend when signing: their
/// values, each under the one script given.
pub open spec fn spent_outputs(ins: Seq<RelevantTxInfo>, script_pubkey: Seq<u8>) -> Seq<
    TxOutputView,
> {
    Seq::new(ins.len(), |i: int| TxOutputView { value: ins[i].vout.value, script_pubkey })
}

/// The signed funding transaction: every input carries the witness of
/// a pay-to-witness-public-key-hash spend.
pub open spec fn signed_funding(
    master: Seq<u8>,
    ins: Seq<RelevantTxInfo>,
    to: Seq<u8>,
    change: Seq<u8>,
    value: u64,
    miner_fee: u64,
) -> Option<TransactionView> {
    let plan = funding_plan(ins, to, change, value, miner_fee);
    match input_signatures(master, plan, spent_outputs(ins, change), None) {
        Some((signatures, pubkey)) => Some(
            signed_with(plan, signatures, seq![pubkey]),
        ),
        None => None,
    }
}

/// The signed claim transaction: version 1, every input carrying the
/// witness of the claim branch.
pub open spec fn signed_claim(
    master: Seq<u8>,
    ins: Seq<RelevantTxInfo>,
    to: Seq<u8>,
    htlc_script: Seq<u8>,
    preimage: Seq<u8>,
    miner_fee: u64,
) -> Option<TransactionView> {
    let plan = sweep_plan(ins, to, miner_fee, 1, SEQUENCE_FINAL);
    match input_signatures(
        master,
        plan,
        spent_outputs(ins, p2wsh_script(htlc_script)),
        Some(htlc_script),
    ) {
        Some((signatures, pubkey)) => Some(
            signed_with(plan, signatures, seq![pubkey, preimage, seq![1u8], htlc_script]),
        ),
        None => None,
    }
}

/// The signed refund transaction: version 2, every input with the
/// lockup as its sequence number and the witness of the refund branch.
pub open spec fn signed_refund(
    master: Seq<u8>,
    ins: Seq<RelevantTxInfo>,
    to: Seq<u8>,
    htlc_script: Seq<u8>,
    lockup_btc: u8,
    miner_fee: u64,
) -> Option<TransactionView> {
    let plan = sweep_plan(ins, to, miner_fee, 2, lockup_btc as u32);
    match input_signatures(
        master,
        plan,
        spent_outputs(ins, p2wsh_script(htlc_script)),
        Some(htlc_script),
    ) {
        Some((signatures, pubkey)) => Some(
            signed_with(plan, signatures, seq![pubkey, seq![0u8], htlc_script]),
        ),
        None => None,
    }
}

/// No satoshi is lost in funding: the inputs equal the value locked,
/// the change and the miner's fee together.
pub proof fn lemma_funding_conserves_value(
    ins: Seq<RelevantTxInfo>,
    to: Seq<u8>,
    change: Seq<u8>,
    value: u64,
    miner_fee: u64,
)
    requires
        value + miner_fee <= total_value(ins) <= u64::MAX,
    ensures
        funding_plan(ins, to, change, value, miner_fee).output.len() == 2,
        total_value(ins) == funding_plan(ins, to, change, value, miner_fee).output[0].value
            + funding_plan(ins, to, change, value, miner_fee).output[1].value + miner_fee,
{
}

/// Inputs that spend `ins` in order, without witnesses.
fn inputs_spending(ins: &Vec<RelevantTxInfo>, sequence: u32) -> (input: Vec<TxInput>)
    ensures
        input.deep_view() == unsigned_inputs(ins@, sequence),
{
    let mut input: Vec<TxInput> = Vec::new();
    let mut i: usize = 0;
    while i < ins.len()
        invariant
            i <= ins.len(),
            input@.len() == i,
            forall|j: int|
                0 <= j < i ==> (#[trigger] input@[j]).deep_view() == unsigned_inputs(
                    ins@,
                    sequence,
                )[j],
        decreases ins.len() - i,
    {
        let spent = &ins[i];
        let next = TxInput {
            txid: spent.txid,
            vout: spent.spend_index as u32,
            sequence,
            witness: Vec::new(),
        };
        assert(next.witness.deep_view() =~= Seq::<Seq<u8>>::empty());
        input.push(next);
        i += 1;
    }
    assert(input.deep_view() =~= unsigned_inputs(ins@, sequence));
    input
}

/// What the inputs are declared to spend when signing.
fn outputs_spent(ins: &Vec<RelevantTxInfo>, script_pubkey: &Vec<u8>) -> (spent: Vec<TxOutput>)
    ensures
        spent.deep_view() == spent_outputs(ins@, script_pubkey@),
{
    let mut spent: Vec<TxOutput> = Vec::new();
    let mut i: usize = 0;
    while i < ins.len()
        invariant
            i <= ins.len(),
            spent@.len() == i,
            forall|j: int|
                0 <= j < i ==> (#[trigger] spent@[j]).deep_view() == spent_outputs(
                    ins@,
                    script_pubkey@,
                )[j],
        decreases ins.len() - i,
    {
        spent.push(
            TxOutput { value: ins[i].vout.value, script_pubkey: copy_bytes(script_pubkey.as_slice()) },
        );
        i += 1;
    }
    assert(spent.deep_view() =~= spent_outputs(ins@, script_pubkey@));
    spent
}

/// The unsigned funding transaction, where the inputs cover the value
/// and the fee.
pub fn plan_funding(
    ins: &Vec<RelevantTxInfo>,
    to: &Vec<u8>,
    change: &Vec<u8>,
    value: u64,
    miner_fee: u64,
) -> (r: Result<Transaction, SwapError>)
    ensures
        match r {
            Ok(tx) => {
                &&& value + miner_fee <= total_value(ins@) <= u64::MAX
                &&& tx@ == funding_plan(ins@, to@, change@, value, miner_fee)
            },
            Err(e) => if total_value(ins@) > u64::MAX {
                e == SwapError::ValueOutOfRange
            } else {
                e == SwapError::InsufficientFunds && total_value(ins@) < value + miner_fee
            },
        },
{
    let api = BitcoinApi {};
    let accumulated_spend: u128 = api.get_balance(ins);
    if accumulated_spend > u64::MAX as u128 {
        return Err(SwapError::ValueOutOfRange);
    }
    if accumulated_spend < value as u128 + miner_fee as u128 {
        return Err(SwapError::InsufficientFunds);
    }
    let change_value: u64 = (accumulated_spend - value as u128 - miner_fee as u128) as u64;
    let mut output: Vec<TxOutput> = Vec::new();
    output.push(TxOutput { value, script_pubkey: copy_bytes(to.as_slice()) });
    output.push(TxOutput { value: change_value, script_pubkey: copy_bytes(change.as_slice()) });
    let tx = Transaction {
        version: 1,
        lock_time: 0,
        input: inputs_spending(ins, SEQUENCE_FINAL),
        output,
    };
    assert(tx.output.deep_view() =~= funding_plan(ins@, to@, change@, value, miner_fee).output);
    Ok(tx)
}

/// The unsigned transaction that sweeps `ins` to `to`, where the inputs
/// cover the fee.
pub fn plan_sweep(
    ins: &Vec<RelevantTxInfo>,
    to: &Vec<u8>,
    miner_fee: u64,
    version: i32,
    sequence: u32,
) -> (r: Result<Transaction, SwapError>)
    ensures
        match r {
            Ok(tx) => {
                &&& miner_fee <= total_value(ins@) <= u64::MAX
                &&& tx@ == sweep_plan(ins@, to@, miner_fee, version, sequence)
            },
            Err(e) => if total_value(ins@) > u64::MAX {
                e == SwapError::ValueOutOfRange
            } else {
                e == SwapError::InsufficientFunds && total_value(ins@) < miner_fee
            },
        },
{
    let api = BitcoinApi {};
    let total: u128 = api.get_balance(ins);
    if total > u64::MAX as u128 {
        return Err(SwapError::ValueOutOfRange);
    }
    if total < miner_fee as u128 {
        return Err(SwapError::InsufficientFunds);
    }
    let mut output: Vec<TxOutput> = Vec::new();
    output.push(
        TxOutput { value: (total - miner_fee as u128) as u64, script_pubkey: copy_bytes(to.as_slice()) },
    );
    let tx = Transaction { version, lock_time: 0, input: inputs_spending(ins, sequence), output };
    assert(tx.output.deep_view() =~= sweep_plan(ins@, to@, miner_fee, version, sequence).output);
    Ok(tx)
}

impl BitcoinApi {
    /// The unspent outputs of `address`, from what the explorer lists
    /// for it; `Malformed` where a transaction ID is not 64 hexadecimal
    /// digits.
    pub fn get_utxos(&self, address: &Address, listed: &Vec<ListedUtxo>) -> (r: Result<
        Vec<RelevantTxInfo>,
        SwapError,
    >)
        ensures
            match r {
                Ok(relevant) => listed_outputs(listed@, address.script_pubkey@) == Some(
                    relevant.deep_view(),
                ),
                Err(e) => e == SwapError::Malformed && listed_outputs(
                    listed@,
                    address.script_pubkey@,
                ) is None,
            },
    {
        let mut relevant: Vec<RelevantTxInfo> = Vec::new();
        let mut i: usize = 0;
        while i < listed.len()
            invariant
                i <= listed.len(),
                relevant@.len() == i,
                forall|j: int| 0 <= j < i ==> is_txid_text((#[trigger] listed@[j]).txid@),
                forall|j: int|
                    0 <= j < i ==> (#[trigger] relevant@[j]).deep_view() == (RelevantTxInfoView {
                        txid: txid_of_text(listed@[j].txid@),
                        spend_index: listed@[j].vout,
                        vout: VoutView {
                            value: listed@[j].value,
                            scriptpubkey: address.script_pubkey@,
                        },
                    }),
            decreases listed.len() - i,
        {
            let utxo = &listed[i];
            match txid_from_text(utxo.txid.as_str()) {
                Some(txid) => {
                    relevant.push(
                        RelevantTxInfo {
                            txid,
                            spend_index: utxo.vout,
                            vout: Vout {
                                value: utxo.value,
                                scriptpubkey: copy_bytes(address.script_pubkey.as_slice()),
                            },
                        },
                    );
                },
                None => {
                    return Err(SwapError::Malformed);
                },
            }
            i += 1;
        }
        assert(listed_outputs(listed@, address.script_pubkey@).unwrap() =~= relevant.deep_view());
        Ok(relevant)
    }

    /// Sum of the values of the unspent outputs of an address.
    pub fn get_balance(&self, utxos: &Vec<RelevantTxInfo>) -> (balance: u128)
        ensures
            balance == total_value(utxos@),
    {
        let mut balance: u128 = 0;
        let mut i: usize = 0;
        while i < utxos.len()
            invariant
                i <= utxos.len(),
                balance == sum(values_of(utxos@).take(i as int)),
            decreases utxos.len() - i,
        {
            proof {
                lemma_total_bound(utxos@, i as int);
                lemma_sum_take_next(values_of(utxos@), i as int);
            }
            balance = balance + utxos[i].vout.value as u128;
            i += 1;
        }
        assert(values_of(utxos@).take(utxos.len() as int) =~= values_of(utxos@));
        balance
    }

    /// Greedy selection in the order given: the shortest prefix, of one
    /// output at least, whose total reaches `value`; every output where
    /// the total falls short.
    pub fn find_unspents_for_value(&self, utxos: Vec<RelevantTxInfo>, value: u128) -> (unspents: Vec<
        RelevantTxInfo,
    >)
        ensures
            unspents@ == selected(utxos@, value as nat),
            unspents@.len() <= utxos@.len(),
            utxos@.len() > 0 ==> unspents@.len() > 0,
            forall|n: int| 0 < n < unspents@.len() ==> sum(values_of(utxos@).take(n)) < value,
            unspents@.len() == utxos@.len() || total_value(unspents@) >= value,
    {
        let ghost all = utxos@;
        let ghost amounts = values_of(all);
        let count: usize = utxos.len();
        let mut fold_value: u128 = 0;
        let mut unspents: Vec<RelevantTxInfo> = Vec::new();
        let mut reached = false;
        for utxo in it: utxos
            invariant
                it.seq() == all,
                all.len() == count,
                amounts == values_of(all),
                unspents@.len() <= it.index(),
                unspents@ == all.take(unspents@.len() as int),
                fold_value == sum(amounts.take(unspents@.len() as int)),
                !reached ==> unspents@.len() == it.index() && reach(
                    amounts,
                    value as nat,
                    it.index() as nat,
                ) == reach(amounts, value as nat, 0),
                reached ==> unspents@.len() == reach(amounts, value as nat, 0),
        {
            if !reached {
                proof {
                    lemma_total_bound(all, unspents@.len() as int);
                    lemma_sum_take_next(amounts, unspents@.len() as int);
                    assert(all.take(unspents@.len() as int).push(utxo) =~= all.take(
                        unspents@.len() as int + 1,
                    ));
                }
                fold_value = fold_value + utxo.vout.value as u128;
                unspents.push(utxo);
                if fold_value >= value {
                    reached = true;
                }
            }
        }
        proof {
            lemma_reach(amounts, value as nat, 0);
            assert(values_of(unspents@) =~= amounts.take(unspents@.len() as int));
        }
        unspents
    }

    /// Builds and signs the transaction that funds the locking script:
    /// output 0 pays `value` to `to`, output 1 returns the rest, less
    /// the miner's fee, to `change_address`.
    pub fn build_transaction(
        &self,
        state: &GauloiState,
        ins: Vec<RelevantTxInfo>,
        to: &Address,
        change_address: &Address,
        value: u64,
        miner_fee: u64,
    ) -> (r: Result<Transaction, SwapError>)
        ensures
            match r {
                Ok(tx) => {
                    &&& value + miner_fee <= total_value(ins@) <= u64::MAX
                    &&& signed_funding(
                        state.master_extended@,
                        ins@,
                        to.script_pubkey@,
                        change_address.script_pubkey@,
                        value,
                        miner_fee,
                    ) == Some(tx@)
                    &&& tx@.output.len() == 2
                    &&& total_value(ins@) == tx@.output[0].value + tx@.output[1].value + miner_fee
                },
                Err(e) => if total_value(ins@) > u64::MAX {
                    e == SwapError::ValueOutOfRange
                } else if total_value(ins@) < value + miner_fee {
                    e == SwapError::InsufficientFunds
                } else {
                    e == SwapError::Keyring && signed_funding(
                        state.master_extended@,
                        ins@,
                        to.script_pubkey@,
                        change_address.script_pubkey@,
                        value,
                        miner_fee,
                    ) is None
                },
            },
    {
        let plan = match plan_funding(
            &ins,
            &to.script_pubkey,
            &change_address.script_pubkey,
            value,
            miner_fee,
        ) {
            Ok(plan) => plan,
            Err(e) => { return Err(e); },
        };
        let spent = outputs_spent(&ins, &change_address.script_pubkey);
        match sign_inputs(state, &plan, &spent, &None) {
            Ok((signatures, pubkey)) => {
                let mut tail: Vec<Vec<u8>> = Vec::new();
                tail.push(copy_bytes(pubkey.as_slice()));
                proof {
                    lemma_bytes_deep_view(tail@[0]);
                    assert(tail.deep_view() =~= seq![pubkey@]);
                }
                finalize(plan, signatures, &tail)
            },
            Err(e) => Err(e),
        }
    }

    /// Builds and signs the transaction that claims the locked outputs
    /// `ins` with the preimage, paying all but the miner's fee to `to`.
    pub fn build_claim_btc(
        &self,
        state: &GauloiState,
        ins: Vec<RelevantTxInfo>,
        to: &Address,
        htlc_script: Vec<u8>,
        preimage: [u8; 32],
        miner_fee: u64,
    ) -> (r: Result<Transaction, SwapError>)
        ensures
            match r {
                Ok(tx) => {
                    &&& miner_fee <= total_value(ins@) <= u64::MAX
                    &&& signed_claim(
                        state.master_extended@,
                        ins@,
                        to.script_pubkey@,
                        htlc_script@,
                        preimage@,
                        miner_fee,
                    ) == Some(tx@)
                    &&& tx@.output.len() == 1
                    &&& total_value(ins@) == tx@.output[0].value + miner_fee
                },
                Err(e) => if total_value(ins@) > u64::MAX {
                    e == SwapError::ValueOutOfRange
                } else if total_value(ins@) < miner_fee {
                    e == SwapError::InsufficientFunds
                } else {
                    e == SwapError::Keyring && signed_claim(
                        state.master_extended@,
                        ins@,
                        to.script_pubkey@,
                        htlc_script@,
                        preimage@,
                        miner_fee,
                    ) is None
                },
            },
    {
        let plan = match plan_sweep(&ins, &to.script_pubkey, miner_fee, 1, SEQUENCE_FINAL) {
            Ok(plan) => plan,
            Err(e) => { return Err(e); },
        };
        let spent = outputs_spent(&ins, &script_p2wsh(&htlc_script));
        let mut selector: Vec<u8> = Vec::new();
        selector.push(1u8);
        let script_copy = copy_bytes(htlc_script.as_slice());
        let witness_script = Some(htlc_script);
        match sign_inputs(state, &plan, &spent, &witness_script) {
            Ok((signatures, pubkey)) => {
                let mut tail: Vec<Vec<u8>> = Vec::new();
                tail.push(copy_bytes(pubkey.as_slice()));
                tail.push(copy_bytes(preimage.as_slice()));
                tail.push(selector);
                tail.push(script_copy);
                proof {
                    lemma_bytes_deep_view(tail@[0]);
                    lemma_bytes_deep_view(tail@[1]);
                    lemma_bytes_deep_view(tail@[2]);
                    lemma_bytes_deep_view(tail@[3]);
                    assert(tail@[2]@ =~= seq![1u8]);
                    assert(tail.deep_view() =~= seq![
                        pubkey@,
                        preimage@,
                        seq![1u8],
                        script_copy@,
                    ]);
                }
                finalize(plan, signatures, &tail)
            },
            Err(e) => Err(e),
        }
    }

    /// Builds and signs the transaction that takes the locked outputs
    /// `ins` back once `lockup_btc` blocks have passed, paying all but
    /// the miner's fee to `to`.
    pub fn build_refund_btc(
        &self,
        state: &GauloiState,
        ins: Vec<RelevantTxInfo>,
        to: &Address,
        htlc_script: Vec<u8>,
        lockup_btc: u8,
        miner_fee: u64,
    ) -> (r: Result<Transaction, SwapError>)
        ensures
            match r {
                Ok(tx) => {
                    &&& miner_fee <= total_value(ins@) <= u64::MAX
                    &&& signed_refund(
                        state.master_extended@,
                        ins@,
                        to.script_pubkey@,
                        htlc_script@,
                        lockup_btc,
                        miner_fee,
                    ) == Some(tx@)
                    &&& tx@.output.len() == 1
                    &&& total_value(ins@) == tx@.output[0].value + miner_fee
                },
                Err(e) => if total_value(ins@) > u64::MAX {
                    e == SwapError::ValueOutOfRange
                } else if total_value(ins@) < miner_fee {
                    e == SwapError::InsufficientFunds
                } else {
                    e == SwapError::Keyring && signed_refund(
                        state.master_extended@,
                        ins@,
                        to.script_pubkey@,
                        htlc_script@,
                        lockup_btc,
                        miner_fee,
                    ) is None
                },
            },
    {
        let plan = match plan_sweep(&ins, &to.script_pubkey, miner_fee, 2, lockup_btc as u32) {
            Ok(plan) => plan,
            Err(e) => { return Err(e); },
        };
        let spent = outputs_spent(&ins, &script_p2wsh(&htlc_script));
        let mut selector: Vec<u8> = Vec::new();
        selector.push(0u8);
        let script_copy = copy_bytes(htlc_script.as_slice());
        let witness_script = Some(htlc_script);
        match sign_inputs(state, &plan, &spent, &witness_script) {
            Ok((signatures, pubkey)) => {
                let mut tail: Vec<Vec<u8>> = Vec::new();
                tail.push(copy_bytes(pubkey.as_slice()));
                tail.push(selector);
                tail.push(script_copy);
                proof {
                    lemma_bytes_deep_view(tail@[0]);
                    lemma_bytes_deep_view(tail@[1]);
                    lemma_bytes_deep_view(tail@[2]);
                    assert(tail@[1]@ =~= seq![0u8]);
                    assert(tail.deep_view() =~= seq![pubkey@, seq![0u8], script_copy@]);
                }
                finalize(plan, signatures, &tail)
            },
            Err(e) => Err(e),
        }
    }
}

} // verus!
