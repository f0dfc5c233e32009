use ciborium::value::Value;
use gauloi::error::SwapError;
use gauloi::offer::{Offer, OfferRequest, OfferResponse};
use serde::ser::{Serialize, SerializeStruct, Serializer};

// What `#[derive(Serialize)]` writes for the records: the fields in
// declared order, each under its name.

struct RequestMirror(OfferRequest);

impl Serialize for RequestMirror {
    fn serialize<S: Serializer>(&self, serializer: S) -> Result<S::Ok, S::Error> {
        let r = &self.0;
        let mut s = serializer.serialize_struct("OfferRequest", 7)?;
        s.serialize_field("version", &r.version)?;
        s.serialize_field("sold", &r.sold)?;
        s.serialize_field("bought", &r.bought)?;
        s.serialize_field("lockup_btc", &r.lockup_btc)?;
        s.serialize_field("seller_pubkey_hash", &r.seller_pubkey_hash)?;
        s.serialize_field("seller_eth_address", &r.seller_eth_address)?;
        s.serialize_field("preimage_hash", &r.preimage_hash)?;
        s.end()
    }
}

struct ResponseMirror(OfferResponse);

impl Serialize for ResponseMirror {
    fn serialize<S: Serializer>(&self, serializer: S) -> Result<S::Ok, S::Error> {
        let r = &self.0;
        let mut s = serializer.serialize_struct("OfferResponse", 7)?;
        s.serialize_field("version", &r.version)?;
        s.serialize_field("sold", &r.sold)?;
        s.serialize_field("bought", &r.bought)?;
        s.serialize_field("lockup_eth", &r.lockup_eth)?;
        s.serialize_field("buyer_pubkey_hash", &r.buyer_pubkey_hash)?;
        s.serialize_field("buyer_eth_address", &r.buyer_eth_address)?;
        s.serialize_field("request_hash", &r.request_hash)?;
        s.end()
    }
}

struct OfferMirror(Offer);

impl Serialize for OfferMirror {
    fn serialize<S: Serializer>(&self, serializer: S) -> Result<S::Ok, S::Error> {
        let r = &self.0;
        let mut s = serializer.serialize_struct("Offer", 12)?;
        s.serialize_field("version", &r.version)?;
        s.serialize_field("sold", &r.sold)?;
        s.serialize_field("bought", &r.bought)?;
        s.serialize_field("lockup_eth", &r.lockup_eth)?;
        s.serialize_field("lockup_btc", &r.lockup_btc)?;
        s.serialize_field("seller_pubkey_hash", &r.seller_pubkey_hash)?;
        s.serialize_field("buyer_pubkey_hash", &r.buyer_pubkey_hash)?;
        s.serialize_field("seller_eth_address", &r.seller_eth_address)?;
        s.serialize_field("buyer_eth_address", &r.buyer_eth_address)?;
        s.serialize_field("swap_id_hex", &r.swap_id_hex)?;
        s.serialize_field("preimage_hash", &r.preimage_hash)?;
        s.serialize_field("request_hash", &r.request_hash)?;
        s.end()
    }
}

fn by_ciborium<T: Serialize>(value: &T) -> Vec<u8> {
    let mut out = Vec::new();
    ciborium::into_writer(value, &mut out).unwrap();
    out
}

fn request(sold: u128, bought: u128, lockup_btc: u8) -> OfferRequest {
    OfferRequest {
        version: 0,
        sold,
        bought,
        lockup_btc,
        seller_pubkey_hash: [0u8; 20],
        seller_eth_address: [0u8; 20],
        preimage_hash: [0x11u8; 32],
    }
}

fn response(lockup_eth: u8) -> OfferResponse {
    OfferResponse {
        version: 0,
        sold: 100_000,
        bought: 50_000_000_000,
        lockup_eth,
        buyer_pubkey_hash: [0xabu8; 20],
        buyer_eth_address: [0x17u8; 20],
        request_hash: [0xffu8; 32],
    }
}

fn offer(swap_id_hex: Option<String>) -> Offer {
    let mut seller_pubkey_hash = [0u8; 20];
    for (i, b) in seller_pubkey_hash.iter_mut().enumerate() {
        *b = (i * 13) as u8;
    }
    Offer {
        version: 0,
        sold: u128::MAX,
        bought: 1 << 64,
        lockup_eth: 23,
        lockup_btc: 24,
        seller_pubkey_hash,
        buyer_pubkey_hash: [0x18u8; 20],
        seller_eth_address: [0x17u8; 20],
        buyer_eth_address: [0xffu8; 20],
        swap_id_hex,
        preimage_hash: [0x80u8; 32],
        request_hash: [0x01u8; 32],
    }
}

fn same_request(a: &OfferRequest, b: &OfferRequest) -> bool {
    a.version == b.version
        && a.sold == b.sold
        && a.bought == b.bought
        && a.lockup_btc == b.lockup_btc
        && a.seller_pubkey_hash == b.seller_pubkey_hash
        && a.seller_eth_address == b.seller_eth_address
        && a.preimage_hash == b.preimage_hash
}

fn same_response(a: &OfferResponse, b: &OfferResponse) -> bool {
    a.version == b.version
        && a.sold == b.sold
        && a.bought == b.bought
        && a.lockup_eth == b.lockup_eth
        && a.buyer_pubkey_hash == b.buyer_pubkey_hash
        && a.buyer_eth_address == b.buyer_eth_address
        && a.request_hash == b.request_hash
}

#[test]
fn request_hex_round_trip() {
    let given = request(100_000, 50_000_000_000, 10);
    let hex = given.to_hex();
    let mut expected = String::from("a7");
    expected += "6776657273696f6e00";
    expected += "64736f6c641a000186a0";
    expected += "66626f756768741b0000000ba43b7400";
    expected += "6a6c6f636b75705f6274630a";
    expected += "7273656c6c65725f7075626b65795f6861736894";
    expected += &"00".repeat(20);
    expected += "7273656c6c65725f6574685f6164647265737394";
    expected += &"00".repeat(20);
    expected += "6d707265696d6167655f686173689820";
    expected += &"11".repeat(32);
    assert_eq!(hex, expected);
    let back = OfferRequest::from_hex(&hex).unwrap();
    assert!(same_request(&back, &given));
    assert_eq!(back.to_hex(), hex);
    let upper = OfferRequest::from_hex(&hex.to_uppercase()).unwrap();
    assert!(same_request(&upper, &given));
}

#[test]
fn request_bytes_are_what_ciborium_writes() {
    for (sold, bought, lockup) in [
        (0u128, 0u128, 0u8),
        (23, 24, 23),
        (255, 256, 24),
        (65_535, 65_536, 255),
        (u32::MAX as u128, u32::MAX as u128 + 1, 100),
        (u64::MAX as u128, u64::MAX as u128 + 1, 16),
        ((1u128 << 72) - 1, 1u128 << 72, 17),
        ((1u128 << 120) - 1, 1u128 << 120, 128),
        (u128::MAX, u128::MAX - 1, 127),
    ] {
        let r = request(sold, bought, lockup);
        assert_eq!(r.to_bytes(), by_ciborium(&RequestMirror(r)));
        let back = OfferRequest::from_bytes(&r.to_bytes()).unwrap();
        assert!(same_request(&back, &r));
    }
}

#[test]
fn response_bytes_are_what_ciborium_writes() {
    for lockup in [0u8, 5, 23, 24, 200, 255] {
        let r = response(lockup);
        assert_eq!(r.to_bytes(), by_ciborium(&ResponseMirror(r)));
        let back = OfferResponse::from_bytes(&r.to_bytes()).unwrap();
        assert!(same_response(&back, &r));
        let again = OfferResponse::from_hex(&r.to_hex()).unwrap();
        assert!(same_response(&again, &r));
    }
}

#[test]
fn offer_bytes_are_what_ciborium_writes() {
    for id in [None, Some(String::new()), Some("0x2a".to_string()), Some("é".repeat(40))] {
        let o = offer(id);
        let bytes = o.to_bytes();
        assert_eq!(bytes, by_ciborium(&OfferMirror(o.clone())));
        let back = Offer::from_bytes(&bytes).unwrap();
        assert_eq!(back.to_bytes(), bytes);
        assert_eq!(back.swap_id_hex, o.swap_id_hex);
        assert_eq!(back.sold, o.sold);
        assert_eq!(back.bought, o.bought);
        assert_eq!(back.seller_pubkey_hash, o.seller_pubkey_hash);
        assert_eq!(Offer::from_hex(&o.to_hex()).unwrap().to_bytes(), bytes);
    }
}

#[test]
fn canonical_bytes_are_read_by_ciborium_as_the_same_map() {
    let r = request(100_000, 50_000_000_000, 10);
    let value: Value = ciborium::from_reader(r.to_bytes().as_slice()).unwrap();
    let bytes = |b: &[u8]| Value::Array(b.iter().map(|x| Value::from(*x)).collect());
    let expected = Value::Map(vec![
        (Value::from("version"), Value::from(0u8)),
        (Value::from("sold"), Value::from(100_000u64)),
        (Value::from("bought"), Value::from(50_000_000_000u64)),
        (Value::from("lockup_btc"), Value::from(10u8)),
        (Value::from("seller_pubkey_hash"), bytes(&[0u8; 20])),
        (Value::from("seller_eth_address"), bytes(&[0u8; 20])),
        (Value::from("preimage_hash"), bytes(&[0x11u8; 32])),
    ]);
    assert_eq!(value, expected);
}

#[test]
fn bytes_that_are_not_canonical_are_malformed() {
    let good = request(5, 50_000_000_000, 10).to_bytes();
    assert!(OfferRequest::from_bytes(&good).is_ok());

    // nothing, and a truncated record
    assert_eq!(OfferRequest::from_bytes(&[]).err(), Some(SwapError::Malformed));
    for cut in 0..good.len() {
        assert_eq!(OfferRequest::from_bytes(&good[..cut]).err(), Some(SwapError::Malformed));
    }

    // bytes behind the record
    let mut longer = good.clone();
    longer.push(0);
    assert_eq!(OfferRequest::from_bytes(&longer).err(), Some(SwapError::Malformed));

    // `sold` = 5 written in two bytes where one is the shortest form
    let at = good.windows(5).position(|w| w == b"\x64sold").unwrap() + 5;
    assert_eq!(good[at], 0x05);
    let mut padded = good[..at].to_vec();
    padded.extend_from_slice(&[0x18, 0x05]);
    padded.extend_from_slice(&good[at + 1..]);
    assert_eq!(OfferRequest::from_bytes(&padded).err(), Some(SwapError::Malformed));

    // a map of another size, and another name for a field
    let mut other_size = good.clone();
    other_size[0] = 0xa6;
    assert_eq!(OfferRequest::from_bytes(&other_size).err(), Some(SwapError::Malformed));
    let mut other_name = good.clone();
    other_name[2] = b'V';
    assert_eq!(OfferRequest::from_bytes(&other_name).err(), Some(SwapError::Malformed));

    // a response is no request
    let resp = response(5).to_bytes();
    assert_eq!(OfferRequest::from_bytes(&resp).err(), Some(SwapError::Malformed));
    assert_eq!(OfferResponse::from_bytes(&good).err(), Some(SwapError::Malformed));
    assert_eq!(Offer::from_bytes(&good).err(), Some(SwapError::Malformed));
}

#[test]
fn fields_in_another_order_are_malformed() {
    // ciborium reads this map as the same request; the canonical form
    // has the fields in declared order only.
    let r = request(1, 2, 3);
    let bytes = |b: &[u8]| Value::Array(b.iter().map(|x| Value::from(*x)).collect());
    let swapped = Value::Map(vec![
        (Value::from("sold"), Value::from(1u8)),
        (Value::from("version"), Value::from(0u8)),
        (Value::from("bought"), Value::from(2u8)),
        (Value::from("lockup_btc"), Value::from(3u8)),
        (Value::from("seller_pubkey_hash"), bytes(&r.seller_pubkey_hash)),
        (Value::from("seller_eth_address"), bytes(&r.seller_eth_address)),
        (Value::from("preimage_hash"), bytes(&r.preimage_hash)),
    ]);
    let encoded = by_ciborium(&swapped);
    assert_eq!(OfferRequest::from_bytes(&encoded).err(), Some(SwapError::Malformed));
}

#[test]
fn text_that_is_not_hex_is_malformed() {
    assert_eq!(OfferRequest::from_hex("zz").err(), Some(SwapError::Malformed));
    assert_eq!(OfferRequest::from_hex("a").err(), Some(SwapError::Malformed));
    assert_eq!(OfferRequest::from_hex("").err(), Some(SwapError::Malformed));
    assert_eq!(OfferResponse::from_hex("a7 ").err(), Some(SwapError::Malformed));
}

#[test]
fn offer_with_text_that_is_not_utf8_is_malformed() {
    let o = offer(Some("ab".to_string()));
    let mut bytes = o.to_bytes();
    let at = bytes.windows(3).position(|w| w == b"\x62ab").unwrap();
    bytes[at + 1] = 0xff;
    assert_eq!(Offer::from_bytes(&bytes).err(), Some(SwapError::Malformed));
}

#[test]
fn hex_is_lower_case_and_reads_either_case() {
    assert_eq!(gauloi::hexcode::encode(&[0x00, 0x9a, 0xff, 0x1b]), "009aff1b");
    assert_eq!(gauloi::hexcode::decode("009AfF1b").unwrap(), vec![0x00, 0x9a, 0xff, 0x1b]);
    assert_eq!(gauloi::hexcode::decode("").unwrap(), Vec::<u8>::new());
    assert_eq!(gauloi::hexcode::decode("0").err(), Some(SwapError::Malformed));
    assert_eq!(gauloi::hexcode::decode("0g").err(), Some(SwapError::Malformed));
}
