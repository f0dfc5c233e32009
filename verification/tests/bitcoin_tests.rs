use gauloi::bitcoin_api::{
    plan_funding, plan_sweep, BitcoinApi, ListedUtxo, RelevantTxInfo, Vout,
};
use gauloi::error::SwapError;
use gauloi::offer::Offer;
use gauloi::state::{GauloiState, Network};
use gauloi::transaction::{
    finalize, first_signatures, sign_inputs, Transaction, TxOutput, SEQUENCE_FINAL,
};

fn party(seed: u8) -> GauloiState {
    GauloiState::new_master(Network::Bitcoin, &[seed; 32]).unwrap()
}

fn offer_between(seller: &GauloiState, buyer: &GauloiState, preimage_hash: [u8; 32]) -> Offer {
    Offer {
        version: 0,
        sold: 100_000,
        bought: 50_000_000_000,
        lockup_eth: 5,
        lockup_btc: 10,
        seller_pubkey_hash: seller.our_pubkey_hash().unwrap(),
        buyer_pubkey_hash: buyer.our_pubkey_hash().unwrap(),
        seller_eth_address: seller.eth_address().unwrap(),
        buyer_eth_address: buyer.eth_address().unwrap(),
        swap_id_hex: None,
        preimage_hash,
        request_hash: [0x22u8; 32],
    }
}

fn utxo(txid: u8, index: u16, value: u64, script: &[u8]) -> RelevantTxInfo {
    RelevantTxInfo {
        txid: [txid; 32],
        spend_index: index,
        vout: Vout { value, scriptpubkey: script.to_vec() },
    }
}

fn verifies(spent_script: &[u8], amount: u64, tx: &Transaction, index: usize) -> bool {
    bitcoinconsensus::verify(spent_script, amount, &tx.serialize(), None, index).is_ok()
}

#[test]
fn funding_pays_value_and_returns_change() {
    let seller = party(7);
    let buyer = party(8);
    let api = BitcoinApi {};
    let offer = offer_between(&seller, &buyer, [0x11u8; 32]);
    let htlc = seller.p2wsh_address(&offer.htlc_script()).unwrap();
    let own = seller.p2wpkh_address().unwrap();
    let ins = vec![
        utxo(1, 0, 60_000, &own.script_pubkey),
        utxo(2, 3, 70_000, &own.script_pubkey),
    ];
    let tx = api.build_transaction(&seller, ins, &htlc, &own, 100_000, 1200).unwrap();
    assert_eq!(tx.version, 1);
    assert_eq!(tx.lock_time, 0);
    assert_eq!(tx.input.len(), 2);
    assert_eq!(tx.input[0].txid, [1u8; 32]);
    assert_eq!(tx.input[0].vout, 0);
    assert_eq!(tx.input[1].txid, [2u8; 32]);
    assert_eq!(tx.input[1].vout, 3);
    assert_eq!(tx.input[0].sequence, 0xffff_ffff);
    assert_eq!(tx.output.len(), 2);
    assert_eq!(tx.output[0].value, 100_000);
    assert_eq!(tx.output[0].script_pubkey, htlc.script_pubkey);
    assert_eq!(tx.output[1].value, 60_000 + 70_000 - 100_000 - 1200);
    assert_eq!(tx.output[1].script_pubkey, own.script_pubkey);
    assert_eq!(tx.output[0].value + tx.output[1].value + 1200, 130_000);
    let pubkey = seller.btc_address().unwrap().to_vec();
    for input in &tx.input {
        assert_eq!(input.witness.len(), 2);
        assert_eq!(input.witness[1], pubkey);
        assert_eq!(*input.witness[0].last().unwrap(), 0x01);
    }
    assert!(verifies(&own.script_pubkey, 60_000, &tx, 0));
    assert!(verifies(&own.script_pubkey, 70_000, &tx, 1));
    assert!(!verifies(&own.script_pubkey, 60_001, &tx, 0));
}

#[test]
fn funding_without_enough_inputs_is_refused() {
    let seller = party(7);
    let api = BitcoinApi {};
    let own = seller.p2wpkh_address().unwrap();
    let ins = vec![utxo(1, 0, 100_000, &own.script_pubkey)];
    let r = api.build_transaction(&seller, ins, &own, &own, 100_000, 1200);
    assert_eq!(r.err(), Some(SwapError::InsufficientFunds));
}

#[test]
fn funding_with_exact_inputs_leaves_no_change() {
    let seller = party(7);
    let api = BitcoinApi {};
    let own = seller.p2wpkh_address().unwrap();
    let ins = vec![utxo(1, 0, 101_200, &own.script_pubkey)];
    let tx = api.build_transaction(&seller, ins, &own, &own, 100_000, 1200).unwrap();
    assert_eq!(tx.output[1].value, 0);
}

#[test]
fn funding_total_beyond_u64_is_out_of_range() {
    let seller = party(7);
    let api = BitcoinApi {};
    let own = seller.p2wpkh_address().unwrap();
    let ins = vec![
        utxo(1, 0, u64::MAX, &own.script_pubkey),
        utxo(2, 0, 1, &own.script_pubkey),
    ];
    let r = api.build_transaction(&seller, ins, &own, &own, 100_000, 1200);
    assert_eq!(r.err(), Some(SwapError::ValueOutOfRange));
}

#[test]
fn claim_spends_with_preimage_and_claim_branch() {
    let seller = party(7);
    let buyer = party(8);
    let api = BitcoinApi {};
    let preimage = [0x42u8; 32];
    let preimage_hash = gauloi::hashes::sha256_of(&preimage);
    let offer = offer_between(&seller, &buyer, preimage_hash);
    let script = offer.htlc_script();
    let htlc = buyer.p2wsh_address(&script).unwrap();
    let own = buyer.p2wpkh_address().unwrap();
    let ins = vec![utxo(5, 0, 100_000, &htlc.script_pubkey)];
    let tx = api
        .build_claim_btc(&buyer, ins, &own, script.clone(), preimage, 1200)
        .unwrap();
    assert_eq!(tx.version, 1);
    assert_eq!(tx.lock_time, 0);
    assert_eq!(tx.output.len(), 1);
    assert_eq!(tx.output[0].value, 100_000 - 1200);
    assert_eq!(tx.output[0].script_pubkey, own.script_pubkey);
    let witness = &tx.input[0].witness;
    assert_eq!(witness.len(), 5);
    assert_eq!(witness[1], buyer.btc_address().unwrap().to_vec());
    assert_eq!(witness[2], preimage.to_vec());
    assert_eq!(witness[3], vec![1u8]);
    assert_eq!(witness[4], script);
    assert!(verifies(&htlc.script_pubkey, 100_000, &tx, 0));
}

#[test]
fn claim_with_wrong_preimage_is_rejected_by_the_script() {
    let seller = party(7);
    let buyer = party(8);
    let api = BitcoinApi {};
    let preimage_hash = gauloi::hashes::sha256_of(&[0x42u8; 32]);
    let offer = offer_between(&seller, &buyer, preimage_hash);
    let script = offer.htlc_script();
    let htlc = buyer.p2wsh_address(&script).unwrap();
    let own = buyer.p2wpkh_address().unwrap();
    let ins = vec![utxo(5, 0, 100_000, &htlc.script_pubkey)];
    let tx = api
        .build_claim_btc(&buyer, ins, &own, script, [0x43u8; 32], 1200)
        .unwrap();
    assert!(!verifies(&htlc.script_pubkey, 100_000, &tx, 0));
}

#[test]
fn claim_signed_by_the_seller_is_rejected_by_the_script() {
    let seller = party(7);
    let buyer = party(8);
    let api = BitcoinApi {};
    let preimage = [0x42u8; 32];
    let offer = offer_between(&seller, &buyer, gauloi::hashes::sha256_of(&preimage));
    let script = offer.htlc_script();
    let htlc = seller.p2wsh_address(&script).unwrap();
    let own = seller.p2wpkh_address().unwrap();
    let ins = vec![utxo(5, 0, 100_000, &htlc.script_pubkey)];
    let tx = api
        .build_claim_btc(&seller, ins, &own, script, preimage, 1200)
        .unwrap();
    assert!(!verifies(&htlc.script_pubkey, 100_000, &tx, 0));
}

#[test]
fn refund_after_lockup_is_accepted() {
    let seller = party(7);
    let buyer = party(8);
    let api = BitcoinApi {};
    let offer = offer_between(&seller, &buyer, [0x11u8; 32]);
    let script = offer.htlc_script();
    let htlc = seller.p2wsh_address(&script).unwrap();
    let own = seller.p2wpkh_address().unwrap();
    let ins = vec![utxo(5, 0, 100_000, &htlc.script_pubkey)];
    let tx = api
        .build_refund_btc(&seller, ins, &own, script.clone(), offer.lockup_btc, 1200)
        .unwrap();
    assert_eq!(tx.version, 2);
    assert_eq!(tx.input[0].sequence, 10);
    let witness = &tx.input[0].witness;
    assert_eq!(witness.len(), 4);
    assert_eq!(witness[1], seller.btc_address().unwrap().to_vec());
    assert_eq!(witness[2], vec![0u8]);
    assert_eq!(witness[3], script);
    assert_eq!(tx.output[0].value, 100_000 - 1200);
    assert!(verifies(&htlc.script_pubkey, 100_000, &tx, 0));
}

#[test]
fn refund_with_shorter_sequence_is_rejected_by_the_script() {
    let seller = party(7);
    let buyer = party(8);
    let api = BitcoinApi {};
    let offer = offer_between(&seller, &buyer, [0x11u8; 32]);
    let script = offer.htlc_script();
    let htlc = seller.p2wsh_address(&script).unwrap();
    let own = seller.p2wpkh_address().unwrap();
    let ins = vec![utxo(5, 0, 100_000, &htlc.script_pubkey)];
    let tx = api
        .build_refund_btc(&seller, ins, &own, script, 9, 1200)
        .unwrap();
    assert_eq!(tx.input[0].sequence, 9);
    assert!(!verifies(&htlc.script_pubkey, 100_000, &tx, 0));
}

#[test]
fn refund_signed_by_the_buyer_is_rejected_by_the_script() {
    let seller = party(7);
    let buyer = party(8);
    let api = BitcoinApi {};
    let offer = offer_between(&seller, &buyer, [0x11u8; 32]);
    let script = offer.htlc_script();
    let htlc = buyer.p2wsh_address(&script).unwrap();
    let own = buyer.p2wpkh_address().unwrap();
    let ins = vec![utxo(5, 0, 100_000, &htlc.script_pubkey)];
    let tx = api
        .build_refund_btc(&buyer, ins, &own, script, 10, 1200)
        .unwrap();
    assert!(!verifies(&htlc.script_pubkey, 100_000, &tx, 0));
}

#[test]
fn claim_below_fee_is_refused() {
    let buyer = party(8);
    let api = BitcoinApi {};
    let own = buyer.p2wpkh_address().unwrap();
    let ins = vec![utxo(5, 0, 1000, &own.script_pubkey)];
    let r = api.build_claim_btc(&buyer, ins, &own, vec![0x51], [0u8; 32], 1200);
    assert_eq!(r.err(), Some(SwapError::InsufficientFunds));
}

#[test]
fn building_twice_gives_the_same_bytes() {
    let seller = party(7);
    let api = BitcoinApi {};
    let own = seller.p2wpkh_address().unwrap();
    let ins = || vec![utxo(1, 0, 200_000, &own.script_pubkey)];
    let a = api.build_transaction(&seller, ins(), &own, &own, 100_000, 1200).unwrap();
    let b = api.build_transaction(&seller, ins(), &own, &own, 100_000, 1200).unwrap();
    assert_eq!(a.serialize(), b.serialize());
    assert_eq!(a.to_hex(), hex::encode(a.serialize()));
}

#[test]
fn balance_is_the_sum_of_values() {
    let api = BitcoinApi {};
    let ins = vec![utxo(1, 0, 5, &[]), utxo(2, 0, 7, &[]), utxo(3, 0, u64::MAX, &[])];
    assert_eq!(api.get_balance(&ins), 12 + u64::MAX as u128);
    assert_eq!(api.get_balance(&Vec::new()), 0);
}

#[test]
fn selection_stops_at_the_first_prefix_that_reaches_the_value() {
    let api = BitcoinApi {};
    let ins = || vec![utxo(1, 0, 5, &[]), utxo(2, 0, 7, &[]), utxo(3, 0, 9, &[])];
    let ids = |v: Vec<RelevantTxInfo>| v.iter().map(|u| u.txid[0]).collect::<Vec<u8>>();
    assert_eq!(ids(api.find_unspents_for_value(ins(), 0)), vec![1]);
    assert_eq!(ids(api.find_unspents_for_value(ins(), 5)), vec![1]);
    assert_eq!(ids(api.find_unspents_for_value(ins(), 6)), vec![1, 2]);
    assert_eq!(ids(api.find_unspents_for_value(ins(), 12)), vec![1, 2]);
    assert_eq!(ids(api.find_unspents_for_value(ins(), 13)), vec![1, 2, 3]);
    assert_eq!(ids(api.find_unspents_for_value(ins(), 22)), vec![1, 2, 3]);
    assert_eq!(ids(api.find_unspents_for_value(Vec::new(), 22)), Vec::<u8>::new());
}

/// The claim of one locked output with any bytes for a preimage.
fn claim_with(
    buyer: &GauloiState,
    script: &[u8],
    htlc_script_pubkey: &[u8],
    preimage: &[u8],
) -> Transaction {
    let own = buyer.p2wpkh_address().unwrap();
    let ins = vec![utxo(5, 0, 100_000, htlc_script_pubkey)];
    let plan = plan_sweep(&ins, &own.script_pubkey, 1200, 1, SEQUENCE_FINAL).unwrap();
    let spent = vec![TxOutput { value: 100_000, script_pubkey: htlc_script_pubkey.to_vec() }];
    let (signatures, pubkey) = sign_inputs(buyer, &plan, &spent, &Some(script.to_vec())).unwrap();
    let tail = vec![pubkey.to_vec(), preimage.to_vec(), vec![1u8], script.to_vec()];
    finalize(plan, signatures, &tail).unwrap()
}

#[test]
fn script_accepts_hello_and_rejects_world() {
    let buyer = party(8);
    let offer = Offer {
        version: 0,
        sold: 100_000,
        bought: 50_000_000_000,
        lockup_eth: 5,
        lockup_btc: 10,
        seller_pubkey_hash: [2u8; 20],
        buyer_pubkey_hash: buyer.our_pubkey_hash().unwrap(),
        seller_eth_address: [3u8; 20],
        buyer_eth_address: [4u8; 20],
        swap_id_hex: None,
        preimage_hash: gauloi::hashes::sha256_of(b"hello"),
        request_hash: [0x22u8; 32],
    };
    let script = offer.htlc_script();
    let htlc = buyer.p2wsh_address(&script).unwrap();
    let hello = claim_with(&buyer, &script, &htlc.script_pubkey, b"hello");
    assert_eq!(hello.input[0].witness[2], b"hello".to_vec());
    assert_eq!(hello.input[0].witness[3], vec![1u8]);
    assert!(verifies(&htlc.script_pubkey, 100_000, &hello, 0));
    let world = claim_with(&buyer, &script, &htlc.script_pubkey, b"world");
    assert!(!verifies(&htlc.script_pubkey, 100_000, &world, 0));
}

#[test]
fn script_with_pubkey_hash_of_no_key_accepts_nobody() {
    // the hash 0x01..01 is the hash of no key that anyone holds
    let buyer = party(8);
    let mut offer = offer_between(&party(7), &buyer, gauloi::hashes::sha256_of(b"hello"));
    offer.buyer_pubkey_hash = [1u8; 20];
    offer.seller_pubkey_hash = [2u8; 20];
    let script = offer.htlc_script();
    let htlc = buyer.p2wsh_address(&script).unwrap();
    let claim = claim_with(&buyer, &script, &htlc.script_pubkey, b"hello");
    assert!(!verifies(&htlc.script_pubkey, 100_000, &claim, 0));
}

#[test]
fn finalize_wants_one_signature_for_each_input() {
    let ins = vec![utxo(1, 0, 5000, &[0x51]), utxo(2, 0, 5000, &[0x51])];
    let plan = plan_sweep(&ins, &vec![0x51], 1200, 1, SEQUENCE_FINAL).unwrap();
    let r = finalize(plan.clone(), vec![vec![1, 2, 3]], &vec![vec![9]]);
    assert_eq!(r.err(), Some(SwapError::Keyring));
    let tx = finalize(plan, vec![vec![1, 2, 3], vec![4]], &vec![vec![9], vec![]]).unwrap();
    assert_eq!(tx.input[0].witness, vec![vec![1, 2, 3], vec![9], vec![]]);
    assert_eq!(tx.input[1].witness, vec![vec![4], vec![9], vec![]]);
    assert_eq!(tx.input[1].txid, [2u8; 32]);
    assert_eq!(tx.output[0].value, 10_000 - 1200);
}

#[test]
fn plans_are_unsigned_and_conserve_value() {
    let ins = vec![utxo(1, 7, 60_000, &[0x51]), utxo(2, 3, 70_000, &[0x51])];
    let plan = plan_funding(&ins, &vec![0xaa], &vec![0xbb], 100_000, 1200).unwrap();
    assert_eq!(plan.version, 1);
    assert_eq!(plan.lock_time, 0);
    assert_eq!(plan.input.len(), 2);
    assert!(plan.input.iter().all(|i| i.witness.is_empty() && i.sequence == 0xffff_ffff));
    assert_eq!(plan.input[0].vout, 7);
    assert_eq!(plan.output[0].script_pubkey, vec![0xaa]);
    assert_eq!(plan.output[1].script_pubkey, vec![0xbb]);
    assert_eq!(plan.output[0].value + plan.output[1].value + 1200, 130_000);
    assert_eq!(
        plan_funding(&ins, &vec![0xaa], &vec![0xbb], 128_801, 1200).err(),
        Some(SwapError::InsufficientFunds)
    );
    assert!(plan_funding(&ins, &vec![0xaa], &vec![0xbb], 128_800, 1200).is_ok());
    let sweep = plan_sweep(&ins, &vec![0xcc], 1200, 2, 10).unwrap();
    assert_eq!(sweep.version, 2);
    assert_eq!(sweep.input[1].sequence, 10);
    assert_eq!(sweep.output.len(), 1);
    assert_eq!(sweep.output[0].value, 130_000 - 1200);
    assert_eq!(
        plan_sweep(&ins, &vec![0xcc], 130_001, 1, SEQUENCE_FINAL).err(),
        Some(SwapError::InsufficientFunds)
    );
}

#[test]
fn listed_outputs_become_unspent_outputs_of_the_address() {
    let seller = party(7);
    let api = BitcoinApi {};
    let own = seller.p2wpkh_address().unwrap();
    let shown = "000102030405060708090a0b0c0d0e0f101112131415161718191A1B1C1D1E1F";
    let listed = vec![
        ListedUtxo { txid: shown.to_string(), vout: 3, value: 70_000 },
        ListedUtxo { txid: "ff".repeat(32), vout: 0, value: 1 },
    ];
    let utxos = api.get_utxos(&own, &listed).unwrap();
    assert_eq!(utxos.len(), 2);
    let mut hash = [0u8; 32];
    for (i, b) in hash.iter_mut().enumerate() {
        *b = 31 - i as u8;
    }
    assert_eq!(utxos[0].txid, hash);
    assert_eq!(utxos[0].spend_index, 3);
    assert_eq!(utxos[0].vout.value, 70_000);
    assert_eq!(utxos[0].vout.scriptpubkey, own.script_pubkey);
    assert_eq!(utxos[1].txid, [0xffu8; 32]);
    assert_eq!(utxos[1].vout.value, 1);
    let shown_again: bitcoin::Txid = bitcoin::hashes::Hash::from_byte_array(utxos[0].txid);
    assert_eq!(shown_again.to_string(), shown.to_lowercase());
    assert!(api.get_utxos(&own, &Vec::new()).unwrap().is_empty());
}

#[test]
fn listing_with_a_txid_that_is_none_is_malformed() {
    let seller = party(7);
    let api = BitcoinApi {};
    let own = seller.p2wpkh_address().unwrap();
    for bad in ["", "00", &"0".repeat(63), &"0".repeat(65), &"0".repeat(66), &"g".repeat(64)] {
        let listed = vec![
            ListedUtxo { txid: "11".repeat(32), vout: 0, value: 1 },
            ListedUtxo { txid: bad.to_string(), vout: 0, value: 1 },
        ];
        assert_eq!(api.get_utxos(&own, &listed).err(), Some(SwapError::Malformed));
    }
}

#[test]
fn key_too_deep_to_sign_is_refused() {
    let seller = party(7);
    let buyer = party(8);
    let api = BitcoinApi {};
    let offer = offer_between(&seller, &buyer, [0x11u8; 32]);
    let htlc = seller.p2wsh_address(&offer.htlc_script()).unwrap();
    let own = seller.p2wpkh_address().unwrap();
    let mut deep = GauloiState { master_extended: seller.master_extended, network: seller.network };
    deep.master_extended[4] = 251;
    let ins = vec![utxo(1, 0, 130_000, &own.script_pubkey)];
    let r = api.build_transaction(&deep, ins.clone(), &htlc, &own, 100_000, 1200);
    assert_eq!(r.err(), Some(SwapError::Keyring));
    let plan = plan_funding(&ins, &htlc.script_pubkey, &own.script_pubkey, 100_000, 1200).unwrap();
    let spent = vec![TxOutput { value: 130_000, script_pubkey: own.script_pubkey.clone() }];
    assert_eq!(sign_inputs(&deep, &plan, &spent, &None).err(), Some(SwapError::Keyring));
    // at the last depth from which the path can be walked the same inputs are signed
    deep.master_extended[4] = 250;
    let tx = api.build_transaction(&deep, ins, &htlc, &own, 100_000, 1200).unwrap();
    assert!(verifies(&own.script_pubkey, 130_000, &tx, 0));
}

#[test]
fn first_signature_of_each_input_is_taken() {
    let lists = vec![vec![vec![1u8, 2], vec![3]], vec![vec![4]]];
    assert_eq!(first_signatures(&lists), Some(vec![vec![1u8, 2], vec![4]]));
    assert_eq!(first_signatures(&vec![vec![vec![1u8]], vec![]]), None);
    assert_eq!(first_signatures(&vec![]), Some(vec![]));
}
