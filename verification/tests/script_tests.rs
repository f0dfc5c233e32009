use bitcoin::blockdata::opcodes::all as op;
use gauloi::offer::Offer;

fn sample_offer(lockup_btc: u8) -> Offer {
    Offer {
        version: 0,
        sold: 100_000,
        bought: 50_000_000_000,
        lockup_eth: 5,
        lockup_btc,
        seller_pubkey_hash: [2u8; 20],
        buyer_pubkey_hash: [1u8; 20],
        seller_eth_address: [3u8; 20],
        buyer_eth_address: [4u8; 20],
        swap_id_hex: None,
        preimage_hash: [0x11u8; 32],
        request_hash: [0x22u8; 32],
    }
}

#[test]
fn htlc_script_has_the_template_bytes() {
    let script = sample_offer(10).htlc_script();
    let mut expected: Vec<u8> = vec![0x63, 0xa8, 0x20];
    expected.extend_from_slice(&[0x11u8; 32]);
    expected.extend_from_slice(&[0x88, 0x76, 0xa9, 0x14]);
    expected.extend_from_slice(&[1u8; 20]);
    expected.extend_from_slice(&[0x67, 0x5a, 0xb2, 0x75, 0x76, 0xa9, 0x14]);
    expected.extend_from_slice(&[2u8; 20]);
    expected.extend_from_slice(&[0x68, 0x88, 0xac]);
    assert_eq!(script, expected);
}

#[test]
fn htlc_script_is_the_same_on_every_run() {
    let a = sample_offer(10);
    let mut b = sample_offer(10);
    // the script reads four fields only
    b.sold = 1;
    b.bought = 2;
    b.lockup_eth = 3;
    b.seller_eth_address = [0xeeu8; 20];
    b.request_hash = [0xddu8; 32];
    b.swap_id_hex = Some("2a".to_string());
    assert_eq!(a.htlc_script(), a.htlc_script());
    assert_eq!(a.htlc_script(), b.htlc_script());
    b.lockup_btc = 11;
    assert_ne!(a.htlc_script(), b.htlc_script());
}

#[test]
fn htlc_script_pushes_the_lockup_in_its_shortest_form() {
    let lockup_bytes = |lockup: u8| {
        let script = sample_offer(lockup).htlc_script();
        // between OP_ELSE behind the buyer's hash and OP_CSV
        let start = 3 + 32 + 4 + 20 + 1;
        let end = script.iter().rposition(|b| *b == 0xb2).unwrap();
        script[start..end].to_vec()
    };
    assert_eq!(lockup_bytes(0), vec![0x00]);
    assert_eq!(lockup_bytes(1), vec![0x51]);
    assert_eq!(lockup_bytes(16), vec![0x60]);
    assert_eq!(lockup_bytes(17), vec![0x01, 0x11]);
    assert_eq!(lockup_bytes(127), vec![0x01, 0x7f]);
    assert_eq!(lockup_bytes(128), vec![0x02, 0x80, 0x00]);
    assert_eq!(lockup_bytes(255), vec![0x02, 0xff, 0x00]);
}

#[test]
fn htlc_script_is_what_the_script_builder_of_bitcoin_assembles() {
    for lockup in [0u8, 1, 10, 16, 17, 127, 128, 255] {
        let offer = sample_offer(lockup);
        let expected = bitcoin::blockdata::script::Builder::new()
            .push_opcode(op::OP_IF)
            .push_opcode(op::OP_SHA256)
            .push_slice(offer.preimage_hash)
            .push_opcode(op::OP_EQUALVERIFY)
            .push_opcode(op::OP_DUP)
            .push_opcode(op::OP_HASH160)
            .push_slice(offer.buyer_pubkey_hash)
            .push_opcode(op::OP_ELSE)
            .push_int(offer.lockup_btc as i64)
            .push_opcode(op::OP_CSV)
            .push_opcode(op::OP_DROP)
            .push_opcode(op::OP_DUP)
            .push_opcode(op::OP_HASH160)
            .push_slice(offer.seller_pubkey_hash)
            .push_opcode(op::OP_ENDIF)
            .push_opcode(op::OP_EQUALVERIFY)
            .push_opcode(op::OP_CHECKSIG)
            .into_script();
        assert_eq!(offer.htlc_script(), expected.to_bytes());
    }
}
