//! The canonical bytes of the three records, and reading them back.
//!
//! A record is a map of its fields in declared order, each under its name.
//! Reading accepts the canonical bytes of a record and nothing else.

use vstd::prelude::*;
use vstd::string::StringSliceAdditionalSpecFns;
use vstd::utf8::{
    decode_utf8, encode_utf8, encode_utf8_decode_utf8, encode_utf8_valid_utf8, valid_utf8,
};
use crate::bytes::{holds_at, same_bytes};
use crate::cbor::{
    expect, head, item_array, item_optional_text, item_text, item_u128, item_u8,
    lemma_array_round_trip, lemma_expect_round_trip, lemma_optional_text_round_trip,
    lemma_u128_round_trip, lemma_u8_round_trip, parse_array, parse_optional_text, parse_u128,
    parse_u8, read_array, read_optional_text, read_u128, read_u8, write_array, write_head,
    write_text, write_u128, write_u8, MAJOR_MAP, NULL,
};
use crate::error::SwapError;
use crate::hexcode::{decode, encode, hex_bytes, hex_chars, is_hex, lemma_hex_round_trip};
use crate::offer::{
    optional_chars, Offer, OfferRequest, OfferRequestView, OfferResponse, OfferResponseView,
    OfferView,
};

verus! {

pub const K_VERSION: &'static str = "version";
pub const K_SOLD: &'static str = "sold";
pub const K_BOUGHT: &'static str = "bought";
pub const K_LOCKUP_BTC: &'static str = "lockup_btc";
pub const K_LOCKUP_ETH: &'static str = "lockup_eth";
pub const K_SELLER_PUBKEY_HASH: &'static str = "seller_pubkey_hash";
pub const K_BUYER_PUBKEY_HASH: &'static str = "buyer_pubkey_hash";
pub const K_SELLER_ETH_ADDRESS: &'static str = "seller_eth_address";
pub const K_BUYER_ETH_ADDRESS: &'static str = "buyer_eth_address";
pub const K_SWAP_ID_HEX: &'static str = "swap_id_hex";
pub const K_PREIMAGE_HASH: &'static str = "preimage_hash";
pub const K_REQUEST_HASH: &'static str = "request_hash";

/// The name of a field, as the key of a map.
pub open spec fn key(name: &str) -> Seq<u8> {
    item_text(name.spec_bytes())
}

/// A one-byte field, and the fields behind it.
pub open spec fn field_u8(name: &str, value: u8, tail: Seq<u8>) -> Seq<u8> {
    key(name) + (item_u8(value) + tail)
}

/// A sixteen-byte field, and the fields behind it.
pub open spec fn field_u128(name: &str, value: u128, tail: Seq<u8>) -> Seq<u8> {
    key(name) + (item_u128(value) + tail)
}

/// A field of bytes, and the fields behind it.
pub open spec fn field_array(name: &str, bytes: Seq<u8>, tail: Seq<u8>) -> Seq<u8> {
    key(name) + (item_array(bytes) + tail)
}

/// A field of a text that may be absent, and the fields behind it.
pub open spec fn field_optional_text(name: &str, utf8: Option<Seq<u8>>, tail: Seq<u8>) -> Seq<u8> {
    key(name) + (item_optional_text(utf8) + tail)
}

/// What is left to read behind a field; nothing once reading failed.
pub open spec fn behind<T>(field: Option<(T, Seq<u8>)>) -> Option<Seq<u8>> {
    match field {
        Some((_, rest)) => Some(rest),
        None => None,
    }
}

/// Reads a one-byte field under `name`, unless reading failed before.
pub open spec fn parse_field_u8(s: Option<Seq<u8>>, name: &str) -> Option<(u8, Seq<u8>)> {
    match s {
        Some(bytes) => match expect(bytes, key(name)) {
            Some(rest) => parse_u8(rest),
            None => None,
        },
        None => None,
    }
}

/// Reads a sixteen-byte field under `name`, unless reading failed before.
pub open spec fn parse_field_u128(s: Option<Seq<u8>>, name: &str) -> Option<(u128, Seq<u8>)> {
    match s {
        Some(bytes) => match expect(bytes, key(name)) {
            Some(rest) => parse_u128(rest),
            None => None,
        },
        None => None,
    }
}

/// Reads a field of `count` bytes under `name`, unless reading failed
/// before.
pub open spec fn parse_field_array(s: Option<Seq<u8>>, name: &str, count: nat) -> Option<
    (Seq<u8>, Seq<u8>),
> {
    match s {
        Some(bytes) => match expect(bytes, key(name)) {
            Some(rest) => parse_array(rest, count),
            None => None,
        },
        None => None,
    }
}

/// Reads a field of a text that may be absent under `name`, unless
/// reading failed before.
pub open spec fn parse_field_optional_text(s: Option<Seq<u8>>, name: &str) -> Option<
    (Option<Seq<u8>>, Seq<u8>),
> {
    match s {
        Some(bytes) => match expect(bytes, key(name)) {
            Some(rest) => parse_optional_text(rest),
            None => None,
        },
        None => None,
    }
}

pub proof fn lemma_field_u8(name: &str, value: u8, tail: Seq<u8>)
    ensures
        parse_field_u8(Some(field_u8(name, value, tail)), name) == Some((value, tail)),
{
    lemma_expect_round_trip(key(name), item_u8(value) + tail);
    lemma_u8_round_trip(value, tail);
}

pub proof fn lemma_field_u128(name: &str, value: u128, tail: Seq<u8>)
    ensures
        parse_field_u128(Some(field_u128(name, value, tail)), name) == Some((value, tail)),
{
    lemma_expect_round_trip(key(name), item_u128(value) + tail);
    lemma_u128_round_trip(value, tail);
}

pub proof fn lemma_field_array(name: &str, bytes: Seq<u8>, tail: Seq<u8>)
    requires
        bytes.len() <= u64::MAX,
    ensures
        parse_field_array(Some(field_array(name, bytes, tail)), name, bytes.len()) == Some(
            (bytes, tail),
        ),
{
    lemma_expect_round_trip(key(name), item_array(bytes) + tail);
    lemma_array_round_trip(bytes, tail);
}

pub proof fn lemma_field_optional_text(name: &str, utf8: Option<Seq<u8>>, tail: Seq<u8>)
    requires
        utf8 is Some ==> utf8.unwrap().len() <= u64::MAX,
    ensures
        parse_field_optional_text(Some(field_optional_text(name, utf8, tail)), name) == Some(
            (utf8, tail),
        ),
{
    lemma_expect_round_trip(key(name), item_optional_text(utf8) + tail);
    lemma_optional_text_round_trip(utf8, tail);
}

/// A field written behind `prefix` continues with the fields behind it.
pub proof fn lemma_field_appended(prefix: Seq<u8>, name: Seq<u8>, item: Seq<u8>, tail: Seq<u8>)
    ensures
        prefix + (name + (item + tail)) == ((prefix + name) + item) + tail,
{
    assert(prefix + (name + (item + tail)) =~= ((prefix + name) + item) + tail);
}

/// The UTF-8 bytes of a text that may be absent.
pub open spec fn optional_utf8(text: Option<Seq<char>>) -> Option<Seq<u8>> {
    match text {
        Some(chars) => Some(encode_utf8(chars)),
        None => None,
    }
}

/// The characters of UTF-8 bytes that may be absent.
pub open spec fn optional_text_chars(utf8: Option<Seq<u8>>) -> Option<Seq<char>> {
    match utf8 {
        Some(bytes) => Some(decode_utf8(bytes)),
        None => None,
    }
}

/// The bytes of a byte string that may be absent.
pub open spec fn optional_bytes(bytes: Option<Vec<u8>>) -> Option<Seq<u8>> {
    match bytes {
        Some(b) => Some(b@),
        None => None,
    }
}

/// `String::from_utf8`. Trusted: succeeds on valid UTF-8 and on nothing
/// else, and the bytes of the text are the bytes given.
#[verifier::external_body]
fn text_from_utf8(utf8: Vec<u8>) -> (text: Option<String>)
    ensures
        match text {
            Some(t) => valid_utf8(utf8@) && encode_utf8(t@) == utf8@,
            None => !valid_utf8(utf8@),
        },
{
    String::from_utf8(utf8).ok()
}

/// Appends the name of a field.
pub(crate) fn write_key(out: &mut Vec<u8>, name: &str)
    ensures
        final(out)@ == old(out)@ + key(name),
{
    write_text(out, name.as_bytes());
}

/// Appends a text that may be absent.
pub(crate) fn write_optional_text(out: &mut Vec<u8>, text: &Option<String>)
    ensures
        final(out)@ == old(out)@ + item_optional_text(optional_utf8(optional_chars(*text))),
        *text matches Some(t) ==> encode_utf8(t@).len() <= u64::MAX,
{
    match text {
        Some(t) => {
            let utf8 = t.as_str().as_bytes();
            let len: usize = utf8.len();
            write_text(out, utf8);
        },
        None => {
            out.push(NULL);
            assert(out@ =~= old(out)@ + item_optional_text(None));
        },
    }
}

/// Reads the name of a field at `pos`: the position behind it.
pub(crate) fn read_key(input: &[u8], pos: usize, name: &str) -> (r: Option<usize>)
    requires
        pos <= input@.len(),
    ensures
        match r {
            Some(next) => pos <= next <= input@.len() && expect(input@.skip(pos as int), key(name))
                == Some(input@.skip(next as int)),
            None => expect(input@.skip(pos as int), key(name)) is None,
        },
{
    let mut expected: Vec<u8> = Vec::new();
    write_key(&mut expected, name);
    assert(expected@ =~= key(name));
    let total: usize = input.len();
    if holds_at(input, pos, expected.as_slice()) {
        assert(expected@.len() <= input@.skip(pos as int).len());
        assert(pos + expected@.len() <= total);
        assert(input@.skip(pos as int).skip(expected@.len() as int) =~= input@.skip(
            pos + expected@.len(),
        ));
        Some(pos + expected.len())
    } else {
        None
    }
}

/// Reads the head of a map of `count` fields at the start of `input`.
pub(crate) fn read_map_head(input: &[u8], count: u64) -> (r: Option<usize>)
    ensures
        match r {
            Some(next) => next <= input@.len() && expect(input@, head(MAJOR_MAP, count as nat))
                == Some(input@.skip(next as int)),
            None => expect(input@, head(MAJOR_MAP, count as nat)) is None,
        },
{
    let mut expected: Vec<u8> = Vec::new();
    write_head(&mut expected, MAJOR_MAP, count);
    assert(expected@ =~= head(MAJOR_MAP, count as nat));
    assert(input@.skip(0) =~= input@);
    if holds_at(input, 0, expected.as_slice()) {
        assert(expected@.len() <= input@.len());
        Some(expected.len())
    } else {
        None
    }
}

/// Reads a one-byte field at `pos`.
pub(crate) fn read_field_u8(input: &[u8], pos: usize, name: &str) -> (r: Option<(u8, usize)>)
    requires
        pos <= input@.len(),
    ensures
        match r {
            Some((value, next)) => pos <= next <= input@.len() && parse_field_u8(
                Some(input@.skip(pos as int)),
                name,
            ) == Some((value, input@.skip(next as int))),
            None => parse_field_u8(Some(input@.skip(pos as int)), name) is None,
        },
{
    match read_key(input, pos, name) {
        Some(at) => read_u8(input, at),
        None => None,
    }
}

/// Reads a sixteen-byte field at `pos`.
pub(crate) fn read_field_u128(input: &[u8], pos: usize, name: &str) -> (r: Option<(u128, usize)>)
    requires
        pos <= input@.len(),
    ensures
        match r {
            Some((value, next)) => pos <= next <= input@.len() && parse_field_u128(
                Some(input@.skip(pos as int)),
                name,
            ) == Some((value, input@.skip(next as int))),
            None => parse_field_u128(Some(input@.skip(pos as int)), name) is None,
        },
{
    match read_key(input, pos, name) {
        Some(at) => read_u128(input, at),
        None => None,
    }
}

/// Reads a field of twenty bytes at `pos`.
pub(crate) fn read_field_20(input: &[u8], pos: usize, name: &str) -> (r: Option<([u8; 20], usize)>)
    requires
        pos <= input@.len(),
    ensures
        match r {
            Some((value, next)) => pos <= next <= input@.len() && parse_field_array(
                Some(input@.skip(pos as int)),
                name,
                20,
            ) == Some((value@, input@.skip(next as int))),
            None => parse_field_array(Some(input@.skip(pos as int)), name, 20) is None,
        },
{
    match read_key(input, pos, name) {
        Some(at) => match read_array(input, at, 20) {
            Some((bytes, next)) => {
                let mut value = [0u8; 20];
                let mut i: usize = 0;
                while i < 20
                    invariant
                        i <= 20,
                        bytes@.len() == 20,
                        forall|j: int| 0 <= j < i ==> value@[j] == bytes@[j],
                    decreases 20 - i,
                {
                    value[i] = bytes[i];
                    i += 1;
                }
                assert(value@ =~= bytes@);
                Some((value, next))
            },
            None => None,
        },
        None => None,
    }
}

/// Reads a field of thirty-two bytes at `pos`.
pub(crate) fn read_field_32(input: &[u8], pos: usize, name: &str) -> (r: Option<([u8; 32], usize)>)
    requires
        pos <= input@.len(),
    ensures
        match r {
            Some((value, next)) => pos <= next <= input@.len() && parse_field_array(
                Some(input@.skip(pos as int)),
                name,
                32,
            ) == Some((value@, input@.skip(next as int))),
            None => parse_field_array(Some(input@.skip(pos as int)), name, 32) is None,
        },
{
    match read_key(input, pos, name) {
        Some(at) => match read_array(input, at, 32) {
            Some((bytes, next)) => {
                let mut value = [0u8; 32];
                let mut i: usize = 0;
                while i < 32
                    invariant
                        i <= 32,
                        bytes@.len() == 32,
                        forall|j: int| 0 <= j < i ==> value@[j] == bytes@[j],
                    decreases 32 - i,
                {
                    value[i] = bytes[i];
                    i += 1;
                }
                assert(value@ =~= bytes@);
                Some((value, next))
            },
            None => None,
        },
        None => None,
    }
}

/// Reads a field of a text that may be absent at `pos`.
pub(crate) fn read_field_optional_text(input: &[u8], pos: usize, name: &str) -> (r: Option<
    (Option<Vec<u8>>, usize),
>)
    requires
        pos <= input@.len(),
    ensures
        match r {
            Some((utf8, next)) => pos <= next <= input@.len() && parse_field_optional_text(
                Some(input@.skip(pos as int)),
                name,
            ) == Some((optional_bytes(utf8), input@.skip(next as int))),
            None => parse_field_optional_text(Some(input@.skip(pos as int)), name) is None,
        },
{
    match read_key(input, pos, name) {
        Some(at) => match read_optional_text(input, at) {
            Some((Some(utf8), next)) => Some((Some(utf8), next)),
            Some((None, next)) => Some((None, next)),
            None => None,
        },
        None => None,
    }
}

/// The fields of an offer request from the one at `from` on, where they are
/// numbered from 0 in declared order.
pub open spec fn request_fields(v: OfferRequestView, from: nat) -> Seq<u8>
    decreases 7 - from,
{
    if from == 0 {
        field_u8(K_VERSION, v.version, request_fields(v, 1))
    } else if from == 1 {
        field_u128(K_SOLD, v.sold, request_fields(v, 2))
    } else if from == 2 {
        field_u128(K_BOUGHT, v.bought, request_fields(v, 3))
    } else if from == 3 {
        field_u8(K_LOCKUP_BTC, v.lockup_btc, request_fields(v, 4))
    } else if from == 4 {
        field_array(K_SELLER_PUBKEY_HASH, v.seller_pubkey_hash, request_fields(v, 5))
    } else if from == 5 {
        field_array(K_SELLER_ETH_ADDRESS, v.seller_eth_address, request_fields(v, 6))
    } else if from == 6 {
        field_array(K_PREIMAGE_HASH, v.preimage_hash, request_fields(v, 7))
    } else {
        Seq::empty()
    }
}

/// The canonical bytes of an offer request.
pub open spec fn canonical_request(v: OfferRequestView) -> Seq<u8> {
    head(MAJOR_MAP, 7) + request_fields(v, 0)
}

/// Reads the fields of an offer request, each under its name, in declared
/// order, with nothing behind the last.
pub open spec fn parse_request(s: Seq<u8>) -> Option<OfferRequestView> {
    let version = parse_field_u8(expect(s, head(MAJOR_MAP, 7)), K_VERSION);
    let sold = parse_field_u128(behind(version), K_SOLD);
    let bought = parse_field_u128(behind(sold), K_BOUGHT);
    let lockup_btc = parse_field_u8(behind(bought), K_LOCKUP_BTC);
    let seller_pubkey_hash = parse_field_array(behind(lockup_btc), K_SELLER_PUBKEY_HASH, 20);
    let seller_eth_address = parse_field_array(
        behind(seller_pubkey_hash),
        K_SELLER_ETH_ADDRESS,
        20,
    );
    let preimage_hash = parse_field_array(behind(seller_eth_address), K_PREIMAGE_HASH, 32);
    if behind(preimage_hash) == Some(Seq::<u8>::empty()) {
        Some(
            OfferRequestView {
                version: version.unwrap().0,
                sold: sold.unwrap().0,
                bought: bought.unwrap().0,
                lockup_btc: lockup_btc.unwrap().0,
                seller_pubkey_hash: seller_pubkey_hash.unwrap().0,
                seller_eth_address: seller_eth_address.unwrap().0,
                preimage_hash: preimage_hash.unwrap().0,
            },
        )
    } else {
        None
    }
}

/// The canonical bytes of an offer request are read back as that record.
pub proof fn lemma_request_round_trip(v: OfferRequestView)
    requires
        v.wf(),
    ensures
        parse_request(canonical_request(v)) == Some(v),
{
    reveal_with_fuel(request_fields, 8);
    lemma_expect_round_trip(head(MAJOR_MAP, 7), request_fields(v, 0));
    lemma_field_u8(K_VERSION, v.version, request_fields(v, 1));
    lemma_field_u128(K_SOLD, v.sold, request_fields(v, 2));
    lemma_field_u128(K_BOUGHT, v.bought, request_fields(v, 3));
    lemma_field_u8(K_LOCKUP_BTC, v.lockup_btc, request_fields(v, 4));
    lemma_field_array(K_SELLER_PUBKEY_HASH, v.seller_pubkey_hash, request_fields(v, 5));
    lemma_field_array(K_SELLER_ETH_ADDRESS, v.seller_eth_address, request_fields(v, 6));
    lemma_field_array(K_PREIMAGE_HASH, v.preimage_hash, request_fields(v, 7));
}

/// The record whose canonical bytes `bytes` are, where there is one.
pub open spec fn decoded_request(bytes: Seq<u8>) -> Option<OfferRequestView> {
    if exists|v: OfferRequestView| v.wf() && #[trigger] canonical_request(v) == bytes {
        Some(choose|v: OfferRequestView| v.wf() && #[trigger] canonical_request(v) == bytes)
    } else {
        None
    }
}

/// Two records with the same canonical bytes are the same record.
pub proof fn lemma_canonical_request_injective(a: OfferRequestView, b: OfferRequestView)
    requires
        a.wf(),
        b.wf(),
        canonical_request(a) == canonical_request(b),
    ensures
        a == b,
{
    lemma_request_round_trip(a);
    lemma_request_round_trip(b);
}

/// Reading the canonical bytes of a record gives the record, so that
/// writing what was read gives the same bytes again.
pub proof fn lemma_decoded_request(v: OfferRequestView)
    requires
        v.wf(),
    ensures
        decoded_request(canonical_request(v)) == Some(v),
        canonical_request(decoded_request(canonical_request(v)).unwrap()) == canonical_request(v),
{
    let w = choose|w: OfferRequestView| w.wf(
        ) && #[trigger] canonical_request(w) == canonical_request(v,
    );
    lemma_canonical_request_injective(v, w);
}

impl OfferRequest {
    /// The canonical bytes of the record.
    pub fn to_bytes(&self) -> (bytes: Vec<u8>)
        ensures
            self@.wf(),
            bytes@ == canonical_request(self@),
    {
        let ghost v = self@;
        let mut out: Vec<u8> = Vec::new();
        write_head(&mut out, MAJOR_MAP, 7);
        assert(out@ + request_fields(v, 0) =~= canonical_request(v));
        let ghost before = out@;
        write_key(&mut out, K_VERSION);
        write_u8(&mut out, self.version);
        proof {
            lemma_field_appended(before, key(K_VERSION), item_u8(v.version), request_fields(v, 1));
        }
        let ghost before = out@;
        write_key(&mut out, K_SOLD);
        write_u128(&mut out, self.sold);
        proof {
            lemma_field_appended(before, key(K_SOLD), item_u128(v.sold), request_fields(v, 2));
        }
        let ghost before = out@;
        write_key(&mut out, K_BOUGHT);
        write_u128(&mut out, self.bought);
        proof {
            lemma_field_appended(before, key(K_BOUGHT), item_u128(v.bought), request_fields(v, 3));
        }
        let ghost before = out@;
        write_key(&mut out, K_LOCKUP_BTC);
        write_u8(&mut out, self.lockup_btc);
        proof {
            lemma_field_appended(
                before,
                key(K_LOCKUP_BTC),
                item_u8(v.lockup_btc),
                request_fields(v, 4),
            );
        }
        let ghost before = out@;
        write_key(&mut out, K_SELLER_PUBKEY_HASH);
        write_array(&mut out, self.seller_pubkey_hash.as_slice());
        proof {
            lemma_field_appended(
                before,
                key(K_SELLER_PUBKEY_HASH),
                item_array(v.seller_pubkey_hash),
                request_fields(v, 5),
            );
        }
        let ghost before = out@;
        write_key(&mut out, K_SELLER_ETH_ADDRESS);
        write_array(&mut out, self.seller_eth_address.as_slice());
        proof {
            lemma_field_appended(
                before,
                key(K_SELLER_ETH_ADDRESS),
                item_array(v.seller_eth_address),
                request_fields(v, 6),
            );
        }
        let ghost before = out@;
        write_key(&mut out, K_PREIMAGE_HASH);
        write_array(&mut out, self.preimage_hash.as_slice());
        proof {
            lemma_field_appended(
                before,
                key(K_PREIMAGE_HASH),
                item_array(v.preimage_hash),
                request_fields(v, 7),
            );
        }
        assert(out@ + request_fields(v, 7) =~= out@);
        out
    }

    /// Reads the fields of the record, in any form of each length and
    /// integer: what `from_bytes` holds to the canonical form.
    fn parse(input: &[u8]) -> (r: Option<OfferRequest>)
        ensures
            match r {
                Some(record) => parse_request(input@) == Some(record@),
                None => parse_request(input@) is None,
            },
    {
        let at = read_map_head(input, 7)?;
        let (version, at) = read_field_u8(input, at, K_VERSION)?;
        let (sold, at) = read_field_u128(input, at, K_SOLD)?;
        let (bought, at) = read_field_u128(input, at, K_BOUGHT)?;
        let (lockup_btc, at) = read_field_u8(input, at, K_LOCKUP_BTC)?;
        let (seller_pubkey_hash, at) = read_field_20(input, at, K_SELLER_PUBKEY_HASH)?;
        let (seller_eth_address, at) = read_field_20(input, at, K_SELLER_ETH_ADDRESS)?;
        let (preimage_hash, at) = read_field_32(input, at, K_PREIMAGE_HASH)?;
        if at != input.len() {
            return None;
        }
        assert(input@.skip(at as int) =~= Seq::<u8>::empty());
        Some(
            OfferRequest {
                version,
                sold,
                bought,
                lockup_btc,
                seller_pubkey_hash,
                seller_eth_address,
                preimage_hash,
            },
        )
    }

    /// The record that `input` is the canonical form of; `Malformed`
    /// where it is the canonical form of none.
    pub fn from_bytes(input: &[u8]) -> (r: Result<OfferRequest, SwapError>)
        ensures
            match r {
                Ok(record) => input@ == canonical_request(record@) && decoded_request(input@) == Some(
                    record@,
                ),
                Err(e) => e == SwapError::Malformed && decoded_request(input@) is None,
            },
            forall|v: OfferRequestView|
                v.wf() && input@ == #[trigger] canonical_request(v) ==> r is Ok && r.unwrap()@ == v,
    {
        proof {
            assert forall|v: OfferRequestView, w: OfferRequestView|
                v.wf() && w.wf() && #[trigger] canonical_request(v) == #[trigger] canonical_request(
                    w,
                ) implies v == w by {
                lemma_canonical_request_injective(v, w);
            }
            assert forall|v: OfferRequestView|
                v.wf() && input@ == #[trigger] canonical_request(v) implies parse_request(input@)
                == Some(v) by {
                lemma_request_round_trip(v);
            }
        }
        match OfferRequest::parse(input) {
            Some(record) => {
                let again = record.to_bytes();
                if same_bytes(again.as_slice(), input) {
                    proof {
                        lemma_decoded_request(record@);
                    }
                    Ok(record)
                } else {
                    Err(SwapError::Malformed)
                }
            },
            None => Err(SwapError::Malformed),
        }
    }

    /// The canonical bytes in lower-case hexadecimal, the form in which
    /// the record travels.
    pub fn to_hex(&self) -> (text: String)
        ensures
            text@ == hex_chars(canonical_request(self@)),
    {
        let bytes = self.to_bytes();
        encode(bytes.as_slice())
    }

    /// The record that `text` is the hexadecimal canonical form of, in
    /// digits of either case; `Malformed` for any other text.
    pub fn from_hex(text: &str) -> (r: Result<OfferRequest, SwapError>)
        ensures
            match r {
                Ok(record) => is_hex(text@) && decoded_request(hex_bytes(text@)) == Some(record@),
                Err(e) => e == SwapError::Malformed && (!is_hex(text@) || decoded_request(
                    hex_bytes(text@),
                ) is None),
            },
            forall|v: OfferRequestView|
                v.wf() && text@ == hex_chars(#[trigger] canonical_request(v)) ==> r is Ok
                    && r.unwrap()@ == v,
    {
        proof {
            assert forall|v: OfferRequestView|
                v.wf() && text@ == hex_chars(#[trigger] canonical_request(v)) implies is_hex(
                text@,
            ) && hex_bytes(text@) == canonical_request(v) by {
                lemma_hex_round_trip(canonical_request(v));
            }
        }
        match decode(text) {
            Ok(bytes) => OfferRequest::from_bytes(bytes.as_slice()),
            Err(e) => Err(e),
        }
    }
}

/// The fields of an offer response from the one at `from` on, where they are
/// numbered from 0 in declared order.
pub open spec fn response_fields(v: OfferResponseView, from: nat) -> Seq<u8>
    decreases 7 - from,
{
    if from == 0 {
        field_u8(K_VERSION, v.version, response_fields(v, 1))
    } else if from == 1 {
        field_u128(K_SOLD, v.sold, response_fields(v, 2))
    } else if from == 2 {
        field_u128(K_BOUGHT, v.bought, response_fields(v, 3))
    } else if from == 3 {
        field_u8(K_LOCKUP_ETH, v.lockup_eth, response_fields(v, 4))
    } else if from == 4 {
        field_array(K_BUYER_PUBKEY_HASH, v.buyer_pubkey_hash, response_fields(v, 5))
    } else if from == 5 {
        field_array(K_BUYER_ETH_ADDRESS, v.buyer_eth_address, response_fields(v, 6))
    } else if from == 6 {
        field_array(K_REQUEST_HASH, v.request_hash, response_fields(v, 7))
    } else {
        Seq::empty()
    }
}

/// The canonical bytes of an offer response.
pub open spec fn canonical_response(v: OfferResponseView) -> Seq<u8> {
    head(MAJOR_MAP, 7) + response_fields(v, 0)
}

/// Reads the fields of an offer response, each under its name, in declared
/// order, with nothing behind the last.
pub open spec fn parse_response(s: Seq<u8>) -> Option<OfferResponseView> {
    let version = parse_field_u8(expect(s, head(MAJOR_MAP, 7)), K_VERSION);
    let sold = parse_field_u128(behind(version), K_SOLD);
    let bought = parse_field_u128(behind(sold), K_BOUGHT);
    let lockup_eth = parse_field_u8(behind(bought), K_LOCKUP_ETH);
    let buyer_pubkey_hash = parse_field_array(behind(lockup_eth), K_BUYER_PUBKEY_HASH, 20);
    let buyer_eth_address = parse_field_array(behind(buyer_pubkey_hash), K_BUYER_ETH_ADDRESS, 20);
    let request_hash = parse_field_array(behind(buyer_eth_address), K_REQUEST_HASH, 32);
    if behind(request_hash) == Some(Seq::<u8>::empty()) {
        Some(
            OfferResponseView {
                version: version.unwrap().0,
                sold: sold.unwrap().0,
                bought: bought.unwrap().0,
                lockup_eth: lockup_eth.unwrap().0,
                buyer_pubkey_hash: buyer_pubkey_hash.unwrap().0,
                buyer_eth_address: buyer_eth_address.unwrap().0,
                request_hash: request_hash.unwrap().0,
            },
        )
    } else {
        None
    }
}

/// The canonical bytes of an offer response are read back as that record.
pub proof fn lemma_response_round_trip(v: OfferResponseView)
    requires
        v.wf(),
    ensures
        parse_response(canonical_response(v)) == Some(v),
{
    reveal_with_fuel(response_fields, 8);
    lemma_expect_round_trip(head(MAJOR_MAP, 7), response_fields(v, 0));
    lemma_field_u8(K_VERSION, v.version, response_fields(v, 1));
    lemma_field_u128(K_SOLD, v.sold, response_fields(v, 2));
    lemma_field_u128(K_BOUGHT, v.bought, response_fields(v, 3));
    lemma_field_u8(K_LOCKUP_ETH, v.lockup_eth, response_fields(v, 4));
    lemma_field_array(K_BUYER_PUBKEY_HASH, v.buyer_pubkey_hash, response_fields(v, 5));
    lemma_field_array(K_BUYER_ETH_ADDRESS, v.buyer_eth_address, response_fields(v, 6));
    lemma_field_array(K_REQUEST_HASH, v.request_hash, response_fields(v, 7));
}

/// The record whose canonical bytes `bytes` are, where there is one.
pub open spec fn decoded_response(bytes: Seq<u8>) -> Option<OfferResponseView> {
    if exists|v: OfferResponseView| v.wf() && #[trigger] canonical_response(v) == bytes {
        Some(choose|v: OfferResponseView| v.wf() && #[trigger] canonical_response(v) == bytes)
    } else {
        None
    }
}

/// Two records with the same canonical bytes are the same record.
pub proof fn lemma_canonical_response_injective(a: OfferResponseView, b: OfferResponseView)
    requires
        a.wf(),
        b.wf(),
        canonical_response(a) == canonical_response(b),
    ensures
        a == b,
{
    lemma_response_round_trip(a);
    lemma_response_round_trip(b);
}

/// Reading the canonical bytes of a record gives the record, so that
/// writing what was read gives the same bytes again.
pub proof fn lemma_decoded_response(v: OfferResponseView)
    requires
        v.wf(),
    ensures
        decoded_response(canonical_response(v)) == Some(v),
        canonical_response(
            decoded_response(canonical_response(v)).unwrap()) == canonical_response(v,
        ),
{
    let w = choose|w: OfferResponseView| w.wf(
        ) && #[trigger] canonical_response(w) == canonical_response(v,
    );
    lemma_canonical_response_injective(v, w);
}

impl OfferResponse {
    /// The canonical bytes of the record.
    pub fn to_bytes(&self) -> (bytes: Vec<u8>)
        ensures
            self@.wf(),
            bytes@ == canonical_response(self@),
    {
        let ghost v = self@;
        let mut out: Vec<u8> = Vec::new();
        write_head(&mut out, MAJOR_MAP, 7);
        assert(out@ + response_fields(v, 0) =~= canonical_response(v));
        let ghost before = out@;
        write_key(&mut out, K_VERSION);
        write_u8(&mut out, self.version);
        proof {
            lemma_field_appended(before, key(K_VERSION), item_u8(v.version), response_fields(v, 1));
        }
        let ghost before = out@;
        write_key(&mut out, K_SOLD);
        write_u128(&mut out, self.sold);
        proof {
            lemma_field_appended(before, key(K_SOLD), item_u128(v.sold), response_fields(v, 2));
        }
        let ghost before = out@;
        write_key(&mut out, K_BOUGHT);
        write_u128(&mut out, self.bought);
        proof {
            lemma_field_appended(before, key(K_BOUGHT), item_u128(v.bought), response_fields(v, 3));
        }
        let ghost before = out@;
        write_key(&mut out, K_LOCKUP_ETH);
        write_u8(&mut out, self.lockup_eth);
        proof {
            lemma_field_appended(
                before,
                key(K_LOCKUP_ETH),
                item_u8(v.lockup_eth),
                response_fields(v, 4),
            );
        }
        let ghost before = out@;
        write_key(&mut out, K_BUYER_PUBKEY_HASH);
        write_array(&mut out, self.buyer_pubkey_hash.as_slice());
        proof {
            lemma_field_appended(
                before,
                key(K_BUYER_PUBKEY_HASH),
                item_array(v.buyer_pubkey_hash),
                response_fields(v, 5),
            );
        }
        let ghost before = out@;
        write_key(&mut out, K_BUYER_ETH_ADDRESS);
        write_array(&mut out, self.buyer_eth_address.as_slice());
        proof {
            lemma_field_appended(
                before,
                key(K_BUYER_ETH_ADDRESS),
                item_array(v.buyer_eth_address),
                response_fields(v, 6),
            );
        }
        let ghost before = out@;
        write_key(&mut out, K_REQUEST_HASH);
        write_array(&mut out, self.request_hash.as_slice());
        proof {
            lemma_field_appended(
                before,
                key(K_REQUEST_HASH),
                item_array(v.request_hash),
                response_fields(v, 7),
            );
        }
        assert(out@ + response_fields(v, 7) =~= out@);
        out
    }

    /// Reads the fields of the record, in any form of each length and
    /// integer: what `from_bytes` holds to the canonical form.
    fn parse(input: &[u8]) -> (r: Option<OfferResponse>)
        ensures
            match r {
                Some(record) => parse_response(input@) == Some(record@),
                None => parse_response(input@) is None,
            },
    {
        let at = read_map_head(input, 7)?;
        let (version, at) = read_field_u8(input, at, K_VERSION)?;
        let (sold, at) = read_field_u128(input, at, K_SOLD)?;
        let (bought, at) = read_field_u128(input, at, K_BOUGHT)?;
        let (lockup_eth, at) = read_field_u8(input, at, K_LOCKUP_ETH)?;
        let (buyer_pubkey_hash, at) = read_field_20(input, at, K_BUYER_PUBKEY_HASH)?;
        let (buyer_eth_address, at) = read_field_20(input, at, K_BUYER_ETH_ADDRESS)?;
        let (request_hash, at) = read_field_32(input, at, K_REQUEST_HASH)?;
        if at != input.len() {
            return None;
        }
        assert(input@.skip(at as int) =~= Seq::<u8>::empty());
        Some(
            OfferResponse {
                version,
                sold,
                bought,
                lockup_eth,
                buyer_pubkey_hash,
                buyer_eth_address,
                request_hash,
            },
        )
    }

    /// The record that `input` is the canonical form of; `Malformed`
    /// where it is the canonical form of none.
    pub fn from_bytes(input: &[u8]) -> (r: Result<OfferResponse, SwapError>)
        ensures
            match r {
                Ok(record) => input@ == canonical_response(record@) && decoded_response(input@) == Some(
                    record@,
                ),
                Err(e) => e == SwapError::Malformed && decoded_response(input@) is None,
            },
            forall|v: OfferResponseView|
                v.wf() && input@ == #[trigger] canonical_response(v) ==> r is Ok && r.unwrap()@ == v,
    {
        proof {
            assert forall|v: OfferResponseView, w: OfferResponseView|
                v.wf() && w.wf() && #[trigger] canonical_response(v) == #[trigger] canonical_response(
                    w,
                ) implies v == w by {
                lemma_canonical_response_injective(v, w);
            }
            assert forall|v: OfferResponseView|
                v.wf() && input@ == #[trigger] canonical_response(v) implies parse_response(input@)
                == Some(v) by {
                lemma_response_round_trip(v);
            }
        }
        match OfferResponse::parse(input) {
            Some(record) => {
                let again = record.to_bytes();
                if same_bytes(again.as_slice(), input) {
                    proof {
                        lemma_decoded_response(record@);
                    }
                    Ok(record)
                } else {
                    Err(SwapError::Malformed)
                }
            },
            None => Err(SwapError::Malformed),
        }
    }

    /// The canonical bytes in lower-case hexadecimal, the form in which
    /// the record travels.
    pub fn to_hex(&self) -> (text: String)
        ensures
            text@ == hex_chars(canonical_response(self@)),
    {
        let bytes = self.to_bytes();
        encode(bytes.as_slice())
    }

    /// The record that `text` is the hexadecimal canonical form of, in
    /// digits of either case; `Malformed` for any other text.
    pub fn from_hex(text: &str) -> (r: Result<OfferResponse, SwapError>)
        ensures
            match r {
                Ok(record) => is_hex(text@) && decoded_response(hex_bytes(text@)) == Some(record@),
                Err(e) => e == SwapError::Malformed && (!is_hex(text@) || decoded_response(
                    hex_bytes(text@),
                ) is None),
            },
            forall|v: OfferResponseView|
                v.wf() && text@ == hex_chars(#[trigger] canonical_response(v)) ==> r is Ok
                    && r.unwrap()@ == v,
    {
        proof {
            assert forall|v: OfferResponseView|
                v.wf() && text@ == hex_chars(#[trigger] canonical_response(v)) implies is_hex(
                text@,
            ) && hex_bytes(text@) == canonical_response(v) by {
                lemma_hex_round_trip(canonical_response(v));
            }
        }
        match decode(text) {
            Ok(bytes) => OfferResponse::from_bytes(bytes.as_slice()),
            Err(e) => Err(e),
        }
    }
}

/// The fields of a completed offer from the one at `from` on, where they are
/// numbered from 0 in declared order.
pub open spec fn offer_fields(v: OfferView, from: nat) -> Seq<u8>
    decreases 12 - from,
{
    if from == 0 {
        field_u8(K_VERSION, v.version, offer_fields(v, 1))
    } else if from == 1 {
        field_u128(K_SOLD, v.sold, offer_fields(v, 2))
    } else if from == 2 {
        field_u128(K_BOUGHT, v.bought, offer_fields(v, 3))
    } else if from == 3 {
        field_u8(K_LOCKUP_ETH, v.lockup_eth, offer_fields(v, 4))
    } else if from == 4 {
        field_u8(K_LOCKUP_BTC, v.lockup_btc, offer_fields(v, 5))
    } else if from == 5 {
        field_array(K_SELLER_PUBKEY_HASH, v.seller_pubkey_hash, offer_fields(v, 6))
    } else if from == 6 {
        field_array(K_BUYER_PUBKEY_HASH, v.buyer_pubkey_hash, offer_fields(v, 7))
    } else if from == 7 {
        field_array(K_SELLER_ETH_ADDRESS, v.seller_eth_address, offer_fields(v, 8))
    } else if from == 8 {
        field_array(K_BUYER_ETH_ADDRESS, v.buyer_eth_address, offer_fields(v, 9))
    } else if from == 9 {
        field_optional_text(K_SWAP_ID_HEX, optional_utf8(v.swap_id_hex), offer_fields(v, 10))
    } else if from == 10 {
        field_array(K_PREIMAGE_HASH, v.preimage_hash, offer_fields(v, 11))
    } else if from == 11 {
        field_array(K_REQUEST_HASH, v.request_hash, offer_fields(v, 12))
    } else {
        Seq::empty()
    }
}

/// The canonical bytes of a completed offer.
pub open spec fn canonical_offer(v: OfferView) -> Seq<u8> {
    head(MAJOR_MAP, 12) + offer_fields(v, 0)
}

/// Reads the fields of a completed offer, each under its name, in declared
/// order, with nothing behind the last.
pub open spec fn parse_offer(s: Seq<u8>) -> Option<OfferView> {
    let version = parse_field_u8(expect(s, head(MAJOR_MAP, 12)), K_VERSION);
    let sold = parse_field_u128(behind(version), K_SOLD);
    let bought = parse_field_u128(behind(sold), K_BOUGHT);
    let lockup_eth = parse_field_u8(behind(bought), K_LOCKUP_ETH);
    let lockup_btc = parse_field_u8(behind(lockup_eth), K_LOCKUP_BTC);
    let seller_pubkey_hash = parse_field_array(behind(lockup_btc), K_SELLER_PUBKEY_HASH, 20);
    let buyer_pubkey_hash = parse_field_array(behind(seller_pubkey_hash), K_BUYER_PUBKEY_HASH, 20);
    let seller_eth_address = parse_field_array(behind(buyer_pubkey_hash), K_SELLER_ETH_ADDRESS, 20);
    let buyer_eth_address = parse_field_array(behind(seller_eth_address), K_BUYER_ETH_ADDRESS, 20);
    let swap_id_hex = parse_field_optional_text(behind(buyer_eth_address), K_SWAP_ID_HEX);
    let preimage_hash = parse_field_array(behind(swap_id_hex), K_PREIMAGE_HASH, 32);
    let request_hash = parse_field_array(behind(preimage_hash), K_REQUEST_HASH, 32);
    if behind(request_hash) == Some(Seq::<u8>::empty()) && (swap_id_hex.unwrap().0 is Some ==> valid_utf8(
        swap_id_hex.unwrap().0.unwrap(),
    )) {
        Some(
            OfferView {
                version: version.unwrap().0,
                sold: sold.unwrap().0,
                bought: bought.unwrap().0,
                lockup_eth: lockup_eth.unwrap().0,
                lockup_btc: lockup_btc.unwrap().0,
                seller_pubkey_hash: seller_pubkey_hash.unwrap().0,
                buyer_pubkey_hash: buyer_pubkey_hash.unwrap().0,
                seller_eth_address: seller_eth_address.unwrap().0,
                buyer_eth_address: buyer_eth_address.unwrap().0,
                swap_id_hex: optional_text_chars(swap_id_hex.unwrap().0),
                preimage_hash: preimage_hash.unwrap().0,
                request_hash: request_hash.unwrap().0,
            },
        )
    } else {
        None
    }
}

/// The canonical bytes of a completed offer are read back as that record.
pub proof fn lemma_offer_round_trip(v: OfferView)
    requires
        v.wf(),
    ensures
        parse_offer(canonical_offer(v)) == Some(v),
{
    reveal_with_fuel(offer_fields, 13);
    lemma_expect_round_trip(head(MAJOR_MAP, 12), offer_fields(v, 0));
    lemma_field_u8(K_VERSION, v.version, offer_fields(v, 1));
    lemma_field_u128(K_SOLD, v.sold, offer_fields(v, 2));
    lemma_field_u128(K_BOUGHT, v.bought, offer_fields(v, 3));
    lemma_field_u8(K_LOCKUP_ETH, v.lockup_eth, offer_fields(v, 4));
    lemma_field_u8(K_LOCKUP_BTC, v.lockup_btc, offer_fields(v, 5));
    lemma_field_array(K_SELLER_PUBKEY_HASH, v.seller_pubkey_hash, offer_fields(v, 6));
    lemma_field_array(K_BUYER_PUBKEY_HASH, v.buyer_pubkey_hash, offer_fields(v, 7));
    lemma_field_array(K_SELLER_ETH_ADDRESS, v.seller_eth_address, offer_fields(v, 8));
    lemma_field_array(K_BUYER_ETH_ADDRESS, v.buyer_eth_address, offer_fields(v, 9));
    lemma_field_optional_text(K_SWAP_ID_HEX, optional_utf8(v.swap_id_hex), offer_fields(v, 10));
    lemma_field_array(K_PREIMAGE_HASH, v.preimage_hash, offer_fields(v, 11));
    lemma_field_array(K_REQUEST_HASH, v.request_hash, offer_fields(v, 12));
    if v.swap_id_hex is Some {
        encode_utf8_valid_utf8(v.swap_id_hex.unwrap());
        encode_utf8_decode_utf8(v.swap_id_hex.unwrap());
    }
}

/// The record whose canonical bytes `bytes` are, where there is one.
pub open spec fn decoded_offer(bytes: Seq<u8>) -> Option<OfferView> {
    if exists|v: OfferView| v.wf() && #[trigger] canonical_offer(v) == bytes {
        Some(choose|v: OfferView| v.wf() && #[trigger] canonical_offer(v) == bytes)
    } else {
        None
    }
}

/// Two records with the same canonical bytes are the same record.
pub proof fn lemma_canonical_offer_injective(a: OfferView, b: OfferView)
    requires
        a.wf(),
        b.wf(),
        canonical_offer(a) == canonical_offer(b),
    ensures
        a == b,
{
    lemma_offer_round_trip(a);
    lemma_offer_round_trip(b);
}

/// Reading the canonical bytes of a record gives the record, so that
/// writing what was read gives the same bytes again.
pub proof fn lemma_decoded_offer(v: OfferView)
    requires
        v.wf(),
    ensures
        decoded_offer(canonical_offer(v)) == Some(v),
        canonical_offer(decoded_offer(canonical_offer(v)).unwrap()) == canonical_offer(v),
{
    let w = choose|w: OfferView| w.wf() && #[trigger] canonical_offer(w) == canonical_offer(v);
    lemma_canonical_offer_injective(v, w);
}

impl Offer {
    /// The canonical bytes of the record.
    pub fn to_bytes(&self) -> (bytes: Vec<u8>)
        ensures
            self@.wf(),
            bytes@ == canonical_offer(self@),
    {
        let ghost v = self@;
        let mut out: Vec<u8> = Vec::new();
        write_head(&mut out, MAJOR_MAP, 12);
        assert(out@ + offer_fields(v, 0) =~= canonical_offer(v));
        let ghost before = out@;
        write_key(&mut out, K_VERSION);
        write_u8(&mut out, self.version);
        proof {
            lemma_field_appended(before, key(K_VERSION), item_u8(v.version), offer_fields(v, 1));
        }
        let ghost before = out@;
        write_key(&mut out, K_SOLD);
        write_u128(&mut out, self.sold);
        proof {
            lemma_field_appended(before, key(K_SOLD), item_u128(v.sold), offer_fields(v, 2));
        }
        let ghost before = out@;
        write_key(&mut out, K_BOUGHT);
        write_u128(&mut out, self.bought);
        proof {
            lemma_field_appended(before, key(K_BOUGHT), item_u128(v.bought), offer_fields(v, 3));
        }
        let ghost before = out@;
        write_key(&mut out, K_LOCKUP_ETH);
        write_u8(&mut out, self.lockup_eth);
        proof {
            lemma_field_appended(
                before,
                key(K_LOCKUP_ETH),
                item_u8(v.lockup_eth),
                offer_fields(v, 4),
            );
        }
        let ghost before = out@;
        write_key(&mut out, K_LOCKUP_BTC);
        write_u8(&mut out, self.lockup_btc);
        proof {
            lemma_field_appended(
                before,
                key(K_LOCKUP_BTC),
                item_u8(v.lockup_btc),
                offer_fields(v, 5),
            );
        }
        let ghost before = out@;
        write_key(&mut out, K_SELLER_PUBKEY_HASH);
        write_array(&mut out, self.seller_pubkey_hash.as_slice());
        proof {
            lemma_field_appended(
                before,
                key(K_SELLER_PUBKEY_HASH),
                item_array(v.seller_pubkey_hash),
                offer_fields(v, 6),
            );
        }
        let ghost before = out@;
        write_key(&mut out, K_BUYER_PUBKEY_HASH);
        write_array(&mut out, self.buyer_pubkey_hash.as_slice());
        proof {
            lemma_field_appended(
                before,
                key(K_BUYER_PUBKEY_HASH),
                item_array(v.buyer_pubkey_hash),
                offer_fields(v, 7),
            );
        }
        let ghost before = out@;
        write_key(&mut out, K_SELLER_ETH_ADDRESS);
        write_array(&mut out, self.seller_eth_address.as_slice());
        proof {
            lemma_field_appended(
                before,
                key(K_SELLER_ETH_ADDRESS),
                item_array(v.seller_eth_address),
                offer_fields(v, 8),
            );
        }
        let ghost before = out@;
        write_key(&mut out, K_BUYER_ETH_ADDRESS);
        write_array(&mut out, self.buyer_eth_address.as_slice());
        proof {
            lemma_field_appended(
                before,
                key(K_BUYER_ETH_ADDRESS),
                item_array(v.buyer_eth_address),
                offer_fields(v, 9),
            );
        }
        let ghost before = out@;
        write_key(&mut out, K_SWAP_ID_HEX);
        write_optional_text(&mut out, &self.swap_id_hex);
        proof {
            lemma_field_appended(
                before,
                key(K_SWAP_ID_HEX),
                item_optional_text(optional_utf8(v.swap_id_hex)),
                offer_fields(v, 10),
            );
        }
        let ghost before = out@;
        write_key(&mut out, K_PREIMAGE_HASH);
        write_array(&mut out, self.preimage_hash.as_slice());
        proof {
            lemma_field_appended(
                before,
                key(K_PREIMAGE_HASH),
                item_array(v.preimage_hash),
                offer_fields(v, 11),
            );
        }
        let ghost before = out@;
        write_key(&mut out, K_REQUEST_HASH);
        write_array(&mut out, self.request_hash.as_slice());
        proof {
            lemma_field_appended(
                before,
                key(K_REQUEST_HASH),
                item_array(v.request_hash),
                offer_fields(v, 12),
            );
        }
        assert(out@ + offer_fields(v, 12) =~= out@);
        out
    }

    /// Reads the fields of the record, in any form of each length and
    /// integer: what `from_bytes` holds to the canonical form.
    fn parse(input: &[u8]) -> (r: Option<Offer>)
        ensures
            match r {
                Some(record) => parse_offer(input@) == Some(record@),
                None => parse_offer(input@) is None,
            },
    {
        let at = read_map_head(input, 12)?;
        let (version, at) = read_field_u8(input, at, K_VERSION)?;
        let (sold, at) = read_field_u128(input, at, K_SOLD)?;
        let (bought, at) = read_field_u128(input, at, K_BOUGHT)?;
        let (lockup_eth, at) = read_field_u8(input, at, K_LOCKUP_ETH)?;
        let (lockup_btc, at) = read_field_u8(input, at, K_LOCKUP_BTC)?;
        let (seller_pubkey_hash, at) = read_field_20(input, at, K_SELLER_PUBKEY_HASH)?;
        let (buyer_pubkey_hash, at) = read_field_20(input, at, K_BUYER_PUBKEY_HASH)?;
        let (seller_eth_address, at) = read_field_20(input, at, K_SELLER_ETH_ADDRESS)?;
        let (buyer_eth_address, at) = read_field_20(input, at, K_BUYER_ETH_ADDRESS)?;
        let (swap_id_hex, at) = read_field_optional_text(input, at, K_SWAP_ID_HEX)?;
        let (preimage_hash, at) = read_field_32(input, at, K_PREIMAGE_HASH)?;
        let (request_hash, at) = read_field_32(input, at, K_REQUEST_HASH)?;
        if at != input.len() {
            return None;
        }
        assert(input@.skip(at as int) =~= Seq::<u8>::empty());
        let swap_id_hex = match swap_id_hex {
            Some(utf8) => match text_from_utf8(utf8) {
                Some(text) => {
                    proof {
                        encode_utf8_decode_utf8(text@);
                    }
                    Some(text)
                },
                None => {
                    return None;
                },
            },
            None => None,
        };
        Some(
            Offer {
                version,
                sold,
                bought,
                lockup_eth,
                lockup_btc,
                seller_pubkey_hash,
                buyer_pubkey_hash,
                seller_eth_address,
                buyer_eth_address,
                swap_id_hex,
                preimage_hash,
                request_hash,
            },
        )
    }

    /// The record that `input` is the canonical form of; `Malformed`
    /// where it is the canonical form of none.
    pub fn from_bytes(input: &[u8]) -> (r: Result<Offer, SwapError>)
        ensures
            match r {
                Ok(record) => input@ == canonical_offer(record@) && decoded_offer(input@) == Some(
                    record@,
                ),
                Err(e) => e == SwapError::Malformed && decoded_offer(input@) is None,
            },
            forall|v: OfferView|
                v.wf() && input@ == #[trigger] canonical_offer(v) ==> r is Ok && r.unwrap()@ == v,
    {
        proof {
            assert forall|v: OfferView, w: OfferView|
                v.wf() && w.wf() && #[trigger] canonical_offer(v) == #[trigger] canonical_offer(
                    w,
                ) implies v == w by {
                lemma_canonical_offer_injective(v, w);
            }
            assert forall|v: OfferView|
                v.wf() && input@ == #[trigger] canonical_offer(v) implies parse_offer(input@)
                == Some(v) by {
                lemma_offer_round_trip(v);
            }
        }
        match Offer::parse(input) {
            Some(record) => {
                let again = record.to_bytes();
                if same_bytes(again.as_slice(), input) {
                    proof {
                        lemma_decoded_offer(record@);
                    }
                    Ok(record)
                } else {
                    Err(SwapError::Malformed)
                }
            },
            None => Err(SwapError::Malformed),
        }
    }

    /// The canonical bytes in lower-case hexadecimal, the form in which
    /// the record travels.
    pub fn to_hex(&self) -> (text: String)
        ensures
            text@ == hex_chars(canonical_offer(self@)),
    {
        let bytes = self.to_bytes();
        encode(bytes.as_slice())
    }

    /// The record that `text` is the hexadecimal canonical form of, in
    /// digits of either case; `Malformed` for any other text.
    pub fn from_hex(text: &str) -> (r: Result<Offer, SwapError>)
        ensures
            match r {
                Ok(record) => is_hex(text@) && decoded_offer(hex_bytes(text@)) == Some(record@),
                Err(e) => e == SwapError::Malformed && (!is_hex(text@) || decoded_offer(
                    hex_bytes(text@),
                ) is None),
            },
            forall|v: OfferView|
                v.wf() && text@ == hex_chars(#[trigger] canonical_offer(v)) ==> r is Ok
                    && r.unwrap()@ == v,
    {
        proof {
            assert forall|v: OfferView|
                v.wf() && text@ == hex_chars(#[trigger] canonical_offer(v)) implies is_hex(
                text@,
            ) && hex_bytes(text@) == canonical_offer(v) by {
                lemma_hex_round_trip(canonical_offer(v));
            }
        }
        match decode(text) {
            Ok(bytes) => Offer::from_bytes(bytes.as_slice()),
            Err(e) => Err(e),
        }
    }
}

} // verus!
