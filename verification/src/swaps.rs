//! The durable store of a party's swaps: the requests seen, the
//! preimages of the requests made here, and the completed offers, in
//! three tables of one `redb` database.

use vstd::prelude::*;
use vstd::utf8::encode_utf8_decode_utf8;
use crate::bytes::same_bytes;
use crate::canonical::{canonical_offer, canonical_request, decoded_offer, decoded_request};
use crate::error::SwapError;
use crate::hashes::{sha256, sha256_of};
use crate::offer::{
    Offer, OfferRequest, OfferRequestView, OfferResponse, OfferResponseView, OfferView, VERSION,
};

verus! {

/// Table of the requests: canonical bytes under their SHA-256.
pub const REQUESTS_TABLE: &'static str = "swap_data";
/// Table of the preimages, under the hash of the request they belong to.
pub const PREIMAGES_TABLE: &'static str = "preimages";
/// Table of the completed offers: canonical bytes under the hash of
/// their request.
pub const OFFERS_TABLE: &'static str = "full_swaps";

#[verifier::external_type_specification]
#[verifier::external_body]
pub struct ExDatabase(redb::Database);

/// What a table of the database holds; a table that was never written
/// holds nothing.
pub uninterp spec fn stored(db: redb::Database, table: Seq<char>) -> Map<Seq<u8>, Seq<u8>>;

/// Whether `a` stands before `b` in the order of the keys of a table:
/// byte strings compared byte by byte from the front, a proper prefix
/// before what it is a prefix of.
pub open spec fn bytes_before(a: Seq<u8>, b: Seq<u8>) -> bool
    decreases a.len(),
{
    if b.len() == 0 {
        false
    } else if a.len() == 0 {
        true
    } else if a[0] != b[0] {
        a[0] < b[0]
    } else {
        bytes_before(a.drop_first(), b.drop_first())
    }
}

/// `entries` names every entry of `table`, in ascending order of the
/// keys, and so each of them once.
pub open spec fn enumerates(entries: Seq<(Seq<u8>, Seq<u8>)>, table: Map<Seq<u8>, Seq<u8>>) -> bool {
    &&& forall|i: int|
        0 <= i < entries.len() ==> table.contains_pair((#[trigger] entries[i]).0, entries[i].1)
    &&& forall|k: Seq<u8>| #[trigger]
        table.contains_key(k) ==> exists|i: int| 0 <= i < entries.len() && (#[trigger] entries[i]).0 == k
    &&& forall|i: int, j: int|
        0 <= i < j < entries.len() ==> bytes_before(
            (#[trigger] entries[i]).0,
            (#[trigger] entries[j]).0,
        )
}

/// The listing of `table`: its entries in ascending order of the keys.
pub open spec fn listing_of(table: Map<Seq<u8>, Seq<u8>>) -> Seq<(Seq<u8>, Seq<u8>)> {
    choose|entries: Seq<(Seq<u8>, Seq<u8>)>| enumerates(entries, table)
}

/// Of two different byte strings one stands before the other, never
/// each before the other.
pub proof fn lemma_bytes_before_one_way(a: Seq<u8>, b: Seq<u8>)
    requires
        bytes_before(a, b),
    ensures
        !bytes_before(b, a),
        a != b,
    decreases a.len(),
{
    if a.len() > 0 && b.len() > 0 && a[0] == b[0] {
        lemma_bytes_before_one_way(a.drop_first(), b.drop_first());
    }
}

/// What follows the first entry of a listing lists the table without
/// the key of that entry.
proof fn lemma_rest_of_listing(entries: Seq<(Seq<u8>, Seq<u8>)>, table: Map<Seq<u8>, Seq<u8>>)
    requires
        enumerates(entries, table),
        entries.len() > 0,
    ensures
        enumerates(entries.drop_first(), table.remove(entries[0].0)),
{
    let rest = entries.drop_first();
    let fewer = table.remove(entries[0].0);
    assert forall|i: int| 0 <= i < rest.len() implies fewer.contains_pair(
        (#[trigger] rest[i]).0,
        rest[i].1,
    ) by {
        assert(rest[i] == entries[i + 1]);
        lemma_bytes_before_one_way(entries[0].0, entries[i + 1].0);
    }
    assert forall|k: Seq<u8>| #[trigger] fewer.contains_key(k) implies exists|i: int|
        0 <= i < rest.len() && (#[trigger] rest[i]).0 == k by {
        assert(table.contains_key(k));
        let at = choose|i: int| 0 <= i < entries.len() && (#[trigger] entries[i]).0 == k;
        assert(rest[at - 1] == entries[at]);
    }
    assert forall|i: int, j: int| 0 <= i < j < rest.len() implies bytes_before(
        (#[trigger] rest[i]).0,
        (#[trigger] rest[j]).0,
    ) by {
        assert(rest[i] == entries[i + 1]);
        assert(rest[j] == entries[j + 1]);
    }
}

/// A table has one listing: two sequences that both name its entries
/// in ascending order of the keys are equal. So a write that leaves a
/// table as it was leaves its listing as it was.
pub proof fn lemma_one_listing(
    first: Seq<(Seq<u8>, Seq<u8>)>,
    second: Seq<(Seq<u8>, Seq<u8>)>,
    table: Map<Seq<u8>, Seq<u8>>,
)
    requires
        enumerates(first, table),
        enumerates(second, table),
    ensures
        first == second,
    decreases first.len(),
{
    if first.len() == 0 {
        if second.len() > 0 {
            assert(table.contains_pair(second[0].0, second[0].1));
            assert(table.contains_key(second[0].0));
        }
        assert(first =~= second);
    } else {
        assert(table.contains_pair(first[0].0, first[0].1));
        assert(table.contains_key(first[0].0));
        let j = choose|j: int| 0 <= j < second.len() && (#[trigger] second[j]).0 == first[0].0;
        assert(table.contains_pair(second[0].0, second[0].1));
        assert(table.contains_key(second[0].0));
        let i = choose|i: int| 0 <= i < first.len() && (#[trigger] first[i]).0 == second[0].0;
        if j > 0 {
            lemma_bytes_before_one_way(second[0].0, second[j].0);
            if i > 0 {
                assert(bytes_before(first[0].0, first[i].0));
            }
        }
        assert(first[0] == second[0]);
        lemma_rest_of_listing(first, table);
        lemma_rest_of_listing(second, table);
        lemma_one_listing(first.drop_first(), second.drop_first(), table.remove(first[0].0));
        assert(first =~= seq![first[0]] + first.drop_first());
        assert(second =~= seq![second[0]] + second.drop_first());
    }
}

/// Writing again what a table holds leaves its listing as it was.
pub proof fn lemma_same_write_keeps_listing(
    table: Map<Seq<u8>, Seq<u8>>,
    key: Seq<u8>,
    value: Seq<u8>,
)
    requires
        table.contains_pair(key, value),
    ensures
        listing_of(table.insert(key, value)) == listing_of(table),
{
    assert(table.insert(key, value) =~= table);
}

/// How a write of `value` under `key` leaves the database: the other
/// tables as they were, and `table` with the entry once the write was
/// committed. A write that reports failure may or may not have landed.
pub open spec fn after_put(
    before: redb::Database,
    after: redb::Database,
    table: Seq<char>,
    key: Seq<u8>,
    value: Seq<u8>,
    committed: bool,
) -> bool {
    &&& forall|other: Seq<char>|
        other != table ==> #[trigger] stored(after, other) == stored(before, other)
    &&& stored(after, table) == stored(before, table).insert(key, value) || (!committed && stored(
        after,
        table,
    ) == stored(before, table))
}

/// The entries as mathematical values.
pub open spec fn entries_view(entries: Seq<(Vec<u8>, Vec<u8>)>) -> Seq<(Seq<u8>, Seq<u8>)> {
    Seq::new(entries.len(), |i: int| (entries[i].0@, entries[i].1@))
}

/// One write transaction on a table of byte strings: `begin_write`,
/// `open_table`, `insert`, `commit`. Trusted: the other tables are left
/// as they were; where the result is `true` the table holds the entry in
/// place of what stood under the key; where it is `false` the table is
/// as it was, or holds the entry.
#[verifier::external_body]
fn table_put(db: &mut redb::Database, table: &'static str, key: &[u8], value: &[u8]) -> (committed:
    bool)
    requires
        table@.len() > 0,
    ensures
        after_put(*old(db), *final(db), table@, key@, value@, committed),
{
    let definition: redb::TableDefinition<&[u8], &[u8]> = redb::TableDefinition::new(table);
    let Ok(transaction) = db.begin_write() else { return false; };
    let Ok(mut opened) = transaction.open_table(definition) else { return false; };
    let inserted = opened.insert(key, value).is_ok();
    drop(opened);
    inserted && transaction.commit().is_ok()
}

/// One write transaction on a table of 32-byte values: `begin_write`,
/// `open_table`, `insert`, `commit`. Trusted: as `table_put`.
#[verifier::external_body]
fn table_put_32(db: &mut redb::Database, table: &'static str, key: &[u8], value: &[u8; 32]) -> (committed:
    bool)
    requires
        table@.len() > 0,
    ensures
        after_put(*old(db), *final(db), table@, key@, value@, committed),
{
    let definition: redb::TableDefinition<&[u8], &[u8; 32]> = redb::TableDefinition::new(table);
    let Ok(transaction) = db.begin_write() else { return false; };
    let Ok(mut opened) = transaction.open_table(definition) else { return false; };
    let inserted = opened.insert(key, value).is_ok();
    drop(opened);
    inserted && transaction.commit().is_ok()
}

/// One read transaction on a table of byte strings: `begin_read`,
/// `open_table`, `get`. Trusted: `Ok` with the value under the key, or
/// with `None` where the table holds none or does not exist yet; `Err`
/// where the database failed.
#[verifier::external_body]
fn table_get(db: &redb::Database, table: &'static str, key: &[u8]) -> (found: Result<
    Option<Vec<u8>>,
    (),
>)
    requires
        table@.len() > 0,
    ensures
        match found {
            Ok(Some(value)) => stored(*db, table@).contains_pair(key@, value@),
            Ok(None) => !stored(*db, table@).contains_key(key@),
            Err(_) => true,
        },
{
    let definition: redb::TableDefinition<&[u8], &[u8]> = redb::TableDefinition::new(table);
    let transaction = db.begin_read().map_err(|_| ())?;
    let opened = match transaction.open_table(definition) {
        Ok(opened) => opened,
        Err(redb::TableError::TableDoesNotExist(_)) => return Ok(None),
        Err(_) => return Err(()),
    };
    let found = redb::ReadableTable::get(&opened, key).map_err(|_| ())?;
    Ok(found.map(|value| value.value().to_vec()))
}

/// One read transaction on a table of 32-byte values: `begin_read`,
/// `open_table`, `get`. Trusted: as `table_get`.
#[verifier::external_body]
fn table_get_32(db: &redb::Database, table: &'static str, key: &[u8]) -> (found: Result<
    Option<[u8; 32]>,
    (),
>)
    requires
        table@.len() > 0,
    ensures
        match found {
            Ok(Some(value)) => stored(*db, table@).contains_pair(key@, value@),
            Ok(None) => !stored(*db, table@).contains_key(key@),
            Err(_) => true,
        },
{
    let definition: redb::TableDefinition<&[u8], &[u8; 32]> = redb::TableDefinition::new(table);
    let transaction = db.begin_read().map_err(|_| ())?;
    let opened = match transaction.open_table(definition) {
        Ok(opened) => opened,
        Err(redb::TableError::TableDoesNotExist(_)) => return Ok(None),
        Err(_) => return Err(()),
    };
    let found = redb::ReadableTable::get(&opened, key).map_err(|_| ())?;
    Ok(found.map(|value| *value.value()))
}

/// One read transaction that walks a table of byte strings:
/// `begin_read`, `open_table`, `iter`. Trusted: `Ok` with every entry
/// of the table, in ascending order of the keys as byte strings, which
/// is how the database compares keys of this type; `Err` where the
/// database failed.
#[verifier::external_body]
fn table_list(db: &redb::Database, table: &'static str) -> (entries: Result<
    Vec<(Vec<u8>, Vec<u8>)>,
    (),
>)
    requires
        table@.len() > 0,
    ensures
        entries matches Ok(list) ==> enumerates(entries_view(list@), stored(*db, table@)),
{
    let definition: redb::TableDefinition<&[u8], &[u8]> = redb::TableDefinition::new(table);
    let transaction = db.begin_read().map_err(|_| ())?;
    let opened = match transaction.open_table(definition) {
        Ok(opened) => opened,
        Err(redb::TableError::TableDoesNotExist(_)) => return Ok(Vec::new()),
        Err(_) => return Err(()),
    };
    let walk = redb::ReadableTable::iter(&opened).map_err(|_| ())?;
    walk.map(|e| e.map(|(k, v)| (k.value().to_vec(), v.value().to_vec())).map_err(|_| ())).collect()
}

/// The listing of a table, read from the database.
fn read_listing(db: &redb::Database, table: &'static str) -> (entries: Result<
    Vec<(Vec<u8>, Vec<u8>)>,
    (),
>)
    requires
        table@.len() > 0,
    ensures
        entries matches Ok(list) ==> entries_view(list@) == listing_of(stored(*db, table@))
            && enumerates(listing_of(stored(*db, table@)), stored(*db, table@)),
{
    let entries = table_list(db, table);
    proof {
        if entries is Ok {
            let list = entries->Ok_0;
            lemma_one_listing(
                entries_view(list@),
                listing_of(stored(*db, table@)),
                stored(*db, table@),
            );
        }
    }
    entries
}

/// The durable store of a party's swaps.
pub struct SwapStorage {
    db: redb::Database,
}

/// The key of a request: the SHA-256 of its canonical bytes.
pub open spec fn request_key(request: OfferRequestView) -> Seq<u8> {
    sha256(canonical_request(request))
}

/// The completed offer that joins a request with its response.
pub open spec fn joined(request: OfferRequestView, response: OfferResponseView) -> OfferView {
    OfferView {
        version: VERSION,
        sold: request.sold,
        bought: request.bought,
        lockup_eth: response.lockup_eth,
        lockup_btc: request.lockup_btc,
        seller_pubkey_hash: request.seller_pubkey_hash,
        buyer_pubkey_hash: response.buyer_pubkey_hash,
        seller_eth_address: request.seller_eth_address,
        buyer_eth_address: response.buyer_eth_address,
        swap_id_hex: None,
        preimage_hash: request.preimage_hash,
        request_hash: response.request_hash,
    }
}

/// The request that a completed offer was made from.
pub open spec fn request_of(offer: OfferView) -> OfferRequestView {
    OfferRequestView {
        version: offer.version,
        sold: offer.sold,
        bought: offer.bought,
        lockup_btc: offer.lockup_btc,
        seller_pubkey_hash: offer.seller_pubkey_hash,
        seller_eth_address: offer.seller_eth_address,
        preimage_hash: offer.preimage_hash,
    }
}

/// What reading a request under `hash` gives, for each thing that the
/// table may hold there: the request, where the bytes are the canonical
/// form of one and `hash` is their SHA-256; nothing for no entry;
/// `Malformed` for any other entry.
pub open spec fn pending_offer(requests: Map<Seq<u8>, Seq<u8>>, hash: Seq<u8>) -> Result<
    Option<OfferRequestView>,
    SwapError,
> {
    if !requests.contains_key(hash) {
        Ok(None)
    } else if decoded_request(requests[hash]) is Some && sha256(requests[hash]) == hash {
        Ok(Some(decoded_request(requests[hash]).unwrap()))
    } else {
        Err(SwapError::Malformed)
    }
}

/// What reading a preimage under `hash` gives, for what the two tables
/// may hold there: nothing for no entry, else the preimage. Only where
/// a request stands under the hash too, and names another hash than
/// the SHA-256 of the preimage, the preimage is withheld as `Malformed`.
pub open spec fn stored_preimage(
    preimages: Map<Seq<u8>, Seq<u8>>,
    requests: Map<Seq<u8>, Seq<u8>>,
    hash: Seq<u8>,
) -> Result<Option<Seq<u8>>, SwapError> {
    if !preimages.contains_key(hash) {
        Ok(None)
    } else if pending_offer(requests, hash) matches Ok(Some(request)) && sha256(preimages[hash])
        != request.preimage_hash {
        Err(SwapError::Malformed)
    } else {
        Ok(Some(preimages[hash]))
    }
}

/// A preimage that is read from the store hashes to the preimage hash
/// of the request that stands under the same key, whose canonical bytes
/// hash to the key.
pub proof fn lemma_preimage_matches_its_request(
    preimages: Map<Seq<u8>, Seq<u8>>,
    requests: Map<Seq<u8>, Seq<u8>>,
    hash: Seq<u8>,
    preimage: Seq<u8>,
    request: OfferRequestView,
)
    requires
        stored_preimage(preimages, requests, hash) == Ok::<Option<Seq<u8>>, SwapError>(
            Some(preimage),
        ),
        pending_offer(requests, hash) == Ok::<Option<OfferRequestView>, SwapError>(Some(request)),
    ensures
        preimages.contains_pair(hash, preimage),
        requests[hash] == canonical_request(request),
        request_key(request) == hash,
        sha256(preimage) == request.preimage_hash,
{
    assert(request.wf() && canonical_request(request) == requests[hash]);
}

/// A preimage that was added for a request is read back under the key
/// of the request, unless another request stands under that key, which
/// takes two requests with one SHA-256.
pub proof fn lemma_added_preimage_is_read_back(
    preimages: Map<Seq<u8>, Seq<u8>>,
    requests: Map<Seq<u8>, Seq<u8>>,
    request: OfferRequestView,
    preimage: Seq<u8>,
)
    requires
        sha256(preimage) == request.preimage_hash,
        pending_offer(requests, request_key(request)) matches Ok(Some(stored)) ==> stored
            == request,
    ensures
        stored_preimage(
            preimages.insert(request_key(request), preimage),
            requests,
            request_key(request),
        ) == Ok::<Option<Seq<u8>>, SwapError>(Some(preimage)),
{
}

/// What a response leads to, given the requests stored: the completed
/// offer, where the request named is stored, is of the current version,
/// agrees with the response on version and amounts, and locks the BTC
/// for strictly longer than the response locks the ETH.
pub open spec fn response_outcome(
    requests: Map<Seq<u8>, Seq<u8>>,
    response: OfferResponseView,
) -> Result<OfferView, SwapError> {
    match pending_offer(requests, response.request_hash) {
        Err(e) => Err(e),
        Ok(None) => Err(SwapError::MissingRequest),
        Ok(Some(request)) => if request.version != VERSION || response.version != request.version
            || response.sold != request.sold || response.bought != request.bought {
            Err(SwapError::MismatchedResponse)
        } else if response.lockup_eth >= request.lockup_btc {
            Err(SwapError::UnsafeLockup)
        } else {
            Ok(joined(request, response))
        },
    }
}

/// The table of offers once a response was applied.
pub open spec fn offers_after(
    offers: Map<Seq<u8>, Seq<u8>>,
    requests: Map<Seq<u8>, Seq<u8>>,
    response: OfferResponseView,
) -> Map<Seq<u8>, Seq<u8>> {
    match response_outcome(requests, response) {
        Ok(offer) => offers.insert(response.request_hash, canonical_offer(offer)),
        Err(_) => offers,
    }
}

/// Applying a response a second time changes nothing: the same offer
/// comes out, the same offer is stored, and the offers are listed as
/// after the first time.
pub proof fn lemma_add_offer_response_idempotent(
    offers: Map<Seq<u8>, Seq<u8>>,
    requests: Map<Seq<u8>, Seq<u8>>,
    response: OfferResponseView,
)
    ensures
        offers_after(offers_after(offers, requests, response), requests, response) == offers_after(
            offers,
            requests,
            response,
        ),
        listing_of(offers_after(offers_after(offers, requests, response), requests, response))
            == listing_of(offers_after(offers, requests, response)),
        response_outcome(requests, response) is Ok ==> offers_after(
            offers,
            requests,
            response,
        )[response.request_hash] == canonical_offer(response_outcome(requests, response).unwrap()),
{
    let once = offers_after(offers, requests, response);
    assert(offers_after(once, requests, response) =~= once);
}

/// A completed offer names the request it was made from: the offer's
/// request hash is the SHA-256 of the canonical bytes of that request.
pub proof fn lemma_offer_names_its_request(
    requests: Map<Seq<u8>, Seq<u8>>,
    response: OfferResponseView,
)
    requires
        response_outcome(requests, response) is Ok,
    ensures
        ({
            let offer = response_outcome(requests, response).unwrap();
            &&& requests.contains_key(offer.request_hash)
            &&& requests[offer.request_hash] == canonical_request(request_of(offer))
            &&& request_key(request_of(offer)) == offer.request_hash
            &&& offer.lockup_eth < offer.lockup_btc
        }),
{
    let bytes = requests[response.request_hash];
    let request = decoded_request(bytes).unwrap();
    assert(request.wf() && canonical_request(request) == bytes);
    assert(request_of(joined(request, response)) == request);
}

/// Whether two completed offers are the same.
pub fn same_offer(a: &Offer, b: &Offer) -> (r: bool)
    ensures
        r == (a@ == b@),
{
    let same_id = match (&a.swap_id_hex, &b.swap_id_hex) {
        (Some(x), Some(y)) => {
            proof {
                encode_utf8_decode_utf8(x@);
                encode_utf8_decode_utf8(y@);
            }
            same_bytes(x.as_str().as_bytes(), y.as_str().as_bytes())
        },
        (None, None) => true,
        _ => false,
    };
    assert(same_id == (a@.swap_id_hex == b@.swap_id_hex));
    let r = a.version == b.version && a.sold == b.sold && a.bought == b.bought && a.lockup_eth
        == b.lockup_eth && a.lockup_btc == b.lockup_btc && same_bytes(
        a.seller_pubkey_hash.as_slice(),
        b.seller_pubkey_hash.as_slice(),
    ) && same_bytes(a.buyer_pubkey_hash.as_slice(), b.buyer_pubkey_hash.as_slice()) && same_bytes(
        a.seller_eth_address.as_slice(),
        b.seller_eth_address.as_slice(),
    ) && same_bytes(a.buyer_eth_address.as_slice(), b.buyer_eth_address.as_slice()) && same_id
        && same_bytes(a.preimage_hash.as_slice(), b.preimage_hash.as_slice()) && same_bytes(
        a.request_hash.as_slice(),
        b.request_hash.as_slice(),
    );
    r
}

/// The request read under `hash`, given what the table held there.
pub fn pending_offer_from(found: Option<Vec<u8>>, hash: &[u8]) -> (r: Result<
    Option<OfferRequest>,
    SwapError,
>)
    ensures
        match (found, r) {
            (None, Ok(None)) => true,
            (Some(bytes), Ok(Some(request))) => decoded_request(bytes@) == Some(request@) && sha256(
                bytes@,
            ) == hash@,
            (Some(bytes), Err(e)) => e == SwapError::Malformed && !(decoded_request(bytes@) is Some
                && sha256(bytes@) == hash@),
            _ => false,
        },
{
    match found {
        None => Ok(None),
        Some(bytes) => {
            let digest = sha256_of(bytes.as_slice());
            if !same_bytes(digest.as_slice(), hash) {
                return Err(SwapError::Malformed);
            }
            match OfferRequest::from_bytes(bytes.as_slice()) {
                Ok(request) => Ok(Some(request)),
                Err(e) => Err(e),
            }
        },
    }
}

/// The preimage read, given the request that stands under the same
/// key, if one does: `Malformed` where that request names another hash
/// than the SHA-256 of the preimage.
pub fn vouched_preimage(preimage: [u8; 32], request: &Option<OfferRequest>) -> (r: Result<
    [u8; 32],
    SwapError,
>)
    ensures
        match r {
            Ok(vouched) => {
                &&& vouched == preimage
                &&& *request matches Some(stored) ==> sha256(preimage@) == stored.preimage_hash@
            },
            Err(e) => {
                &&& e == SwapError::Malformed
                &&& *request matches Some(stored)
                &&& sha256(preimage@) != stored.preimage_hash@
            },
        },
{
    match request {
        Some(stored) => {
            let digest = sha256_of(preimage.as_slice());
            if same_bytes(digest.as_slice(), stored.preimage_hash.as_slice()) {
                Ok(preimage)
            } else {
                Err(SwapError::Malformed)
            }
        },
        None => Ok(preimage),
    }
}

/// The completed offer that a response to `request` gives, where the
/// two agree and the lockups are safe.
pub fn complete_offer(request: &OfferRequest, response: &OfferResponse) -> (r: Result<
    Offer,
    SwapError,
>)
    ensures
        match r {
            Ok(offer) => {
                &&& offer@ == joined(request@, response@)
                &&& request.version == VERSION
                &&& response.version == request.version
                &&& response.sold == request.sold
                &&& response.bought == request.bought
                &&& response.lockup_eth < request.lockup_btc
            },
            Err(e) => if request.version != VERSION || response.version != request.version
                || response.sold != request.sold || response.bought != request.bought {
                e == SwapError::MismatchedResponse
            } else {
                e == SwapError::UnsafeLockup && response.lockup_eth >= request.lockup_btc
            },
        },
{
    if request.version != VERSION || response.version != request.version || response.sold
        != request.sold || response.bought != request.bought {
        return Err(SwapError::MismatchedResponse);
    }
    if response.lockup_eth >= request.lockup_btc {
        return Err(SwapError::UnsafeLockup);
    }
    Ok(
        Offer {
            version: VERSION,
            sold: request.sold,
            bought: request.bought,
            lockup_eth: response.lockup_eth,
            lockup_btc: request.lockup_btc,
            seller_pubkey_hash: request.seller_pubkey_hash,
            buyer_pubkey_hash: response.buyer_pubkey_hash,
            seller_eth_address: request.seller_eth_address,
            buyer_eth_address: response.buyer_eth_address,
            swap_id_hex: None,
            request_hash: response.request_hash,
            preimage_hash: request.preimage_hash,
        },
    )
}

/// The completed offers as mathematical values.
pub open spec fn offer_views(offers: Seq<Offer>) -> Seq<OfferView> {
    Seq::new(offers.len(), |i: int| offers[i]@)
}

/// The requests as mathematical values.
pub open spec fn request_views(requests: Seq<OfferRequest>) -> Seq<OfferRequestView> {
    Seq::new(requests.len(), |i: int| requests[i]@)
}

/// The completed offers that the entries of a table stand for, in the
/// order of the entries; `None` where an entry is no canonical offer.
pub open spec fn listed_offers(entries: Seq<(Seq<u8>, Seq<u8>)>) -> Option<Seq<OfferView>> {
    if forall|i: int| 0 <= i < entries.len() ==> decoded_offer((#[trigger] entries[i]).1) is Some {
        Some(Seq::new(entries.len(), |i: int| decoded_offer(entries[i].1).unwrap()))
    } else {
        None
    }
}

/// The requests that the entries of a table stand for, in the order of
/// the entries; `None` where an entry is no canonical request.
pub open spec fn listed_requests(entries: Seq<(Seq<u8>, Seq<u8>)>) -> Option<
    Seq<OfferRequestView>,
> {
    if forall|i: int|
        0 <= i < entries.len() ==> decoded_request((#[trigger] entries[i]).1) is Some {
        Some(Seq::new(entries.len(), |i: int| decoded_request(entries[i].1).unwrap()))
    } else {
        None
    }
}

/// The completed offers that the entries of a table stand for.
pub fn offers_from(entries: &Vec<(Vec<u8>, Vec<u8>)>) -> (r: Result<Vec<Offer>, SwapError>)
    ensures
        match r {
            Ok(offers) => listed_offers(entries_view(entries@)) == Some(offer_views(offers@)),
            Err(e) => e == SwapError::Malformed && listed_offers(entries_view(entries@)) is None,
        },
{
    let ghost listed = entries_view(entries@);
    let mut offers: Vec<Offer> = Vec::new();
    let mut i: usize = 0;
    while i < entries.len()
        invariant
            i <= entries.len(),
            listed == entries_view(entries@),
            offers@.len() == i,
            forall|j: int| 0 <= j < i ==> decoded_offer(listed[j].1) == Some(#[trigger] offers@[j]@),
        decreases entries.len() - i,
    {
        match Offer::from_bytes(entries[i].1.as_slice()) {
            Ok(offer) => {
                offers.push(offer);
            },
            Err(e) => {
                assert(decoded_offer(listed[i as int].1) is None);
                return Err(e);
            },
        }
        i += 1;
    }
    proof {
        assert forall|j: int| 0 <= j < listed.len() implies decoded_offer(
            (#[trigger] listed[j]).1,
        ) is Some by {
            assert(decoded_offer(listed[j].1) == Some(offers@[j]@));
        }
        assert(listed_offers(listed).unwrap() =~= offer_views(offers@));
    }
    Ok(offers)
}

/// The requests that the entries of a table stand for.
pub fn requests_from(entries: &Vec<(Vec<u8>, Vec<u8>)>) -> (r: Result<
    Vec<OfferRequest>,
    SwapError,
>)
    ensures
        match r {
            Ok(requests) => listed_requests(entries_view(entries@)) == Some(
                request_views(requests@),
            ),
            Err(e) => e == SwapError::Malformed && listed_requests(entries_view(entries@)) is None,
        },
{
    let ghost listed = entries_view(entries@);
    let mut requests: Vec<OfferRequest> = Vec::new();
    let mut i: usize = 0;
    while i < entries.len()
        invariant
            i <= entries.len(),
            listed == entries_view(entries@),
            requests@.len() == i,
            forall|j: int|
                0 <= j < i ==> decoded_request(listed[j].1) == Some(#[trigger] requests@[j]@),
        decreases entries.len() - i,
    {
        match OfferRequest::from_bytes(entries[i].1.as_slice()) {
            Ok(request) => {
                requests.push(request);
            },
            Err(e) => {
                assert(decoded_request(listed[i as int].1) is None);
                return Err(e);
            },
        }
        i += 1;
    }
    proof {
        assert forall|j: int| 0 <= j < listed.len() implies decoded_request(
            (#[trigger] listed[j]).1,
        ) is Some by {
            assert(decoded_request(listed[j].1) == Some(requests@[j]@));
        }
        assert(listed_requests(listed).unwrap() =~= request_views(requests@));
    }
    Ok(requests)
}

/// The first index at which `offer` stands in `offers`.
pub fn index_of(offers: &Vec<Offer>, offer: &Offer) -> (r: Option<usize>)
    ensures
        match r {
            Some(index) => index < offers@.len() && offers@[index as int]@ == offer@ && forall|
                j: int,
            | 0 <= j < index ==> (#[trigger] offers@[j])@ != offer@,
            None => forall|j: int| 0 <= j < offers@.len() ==> (#[trigger] offers@[j])@ != offer@,
        },
{
    let mut i: usize = 0;
    while i < offers.len()
        invariant
            i <= offers.len(),
            forall|j: int| 0 <= j < i ==> (#[trigger] offers@[j])@ != offer@,
        decreases offers.len() - i,
    {
        if same_offer(&offers[i], offer) {
            return Some(i);
        }
        i += 1;
    }
    None
}

/// The offer at `index`; `IndexOutOfRange` where there is none.
pub fn offer_at(offers: Vec<Offer>, index: usize) -> (r: Result<Offer, SwapError>)
    ensures
        match r {
            Ok(offer) => index < offers@.len() && offer == offers@[index as int],
            Err(e) => e == SwapError::IndexOutOfRange && index >= offers@.len(),
        },
{
    let mut offers = offers;
    if index < offers.len() {
        Ok(offers.remove(index))
    } else {
        Err(SwapError::IndexOutOfRange)
    }
}

/// The three tables have three names.
pub proof fn lemma_table_names()
    ensures
        REQUESTS_TABLE@.len() > 0,
        PREIMAGES_TABLE@.len() > 0,
        OFFERS_TABLE@.len() > 0,
        REQUESTS_TABLE@ != PREIMAGES_TABLE@,
        REQUESTS_TABLE@ != OFFERS_TABLE@,
        PREIMAGES_TABLE@ != OFFERS_TABLE@,
{
    reveal_strlit("swap_data");
    reveal_strlit("preimages");
    reveal_strlit("full_swaps");
    assert(REQUESTS_TABLE@[0] == 's');
    assert(PREIMAGES_TABLE@[0] == 'p');
}

impl SwapStorage {
    /// The table of requests.
    pub closed spec fn requests(&self) -> Map<Seq<u8>, Seq<u8>> {
        stored(self.db, REQUESTS_TABLE@)
    }

    /// The table of preimages.
    pub closed spec fn preimages(&self) -> Map<Seq<u8>, Seq<u8>> {
        stored(self.db, PREIMAGES_TABLE@)
    }

    /// The table of completed offers.
    pub closed spec fn offers(&self) -> Map<Seq<u8>, Seq<u8>> {
        stored(self.db, OFFERS_TABLE@)
    }

    /// The entries of the table of requests, in ascending order of the
    /// keys.
    pub open spec fn request_entries(&self) -> Seq<(Seq<u8>, Seq<u8>)> {
        listing_of(self.requests())
    }

    /// The entries of the table of completed offers, in ascending order
    /// of the keys.
    pub open spec fn offer_entries(&self) -> Seq<(Seq<u8>, Seq<u8>)> {
        listing_of(self.offers())
    }

    /// A store on a database that the caller opened: the three tables
    /// hold what the database holds under their names.
    pub fn new(db: redb::Database) -> (store: SwapStorage)
        ensures
            store.requests() == stored(db, REQUESTS_TABLE@),
            store.preimages() == stored(db, PREIMAGES_TABLE@),
            store.offers() == stored(db, OFFERS_TABLE@),
    {
        SwapStorage { db }
    }

    /// Every request stored, in ascending order of the keys.
    pub fn get_all_offer_requests(&self) -> (r: Result<Vec<OfferRequest>, SwapError>)
        ensures
            match r {
                Ok(requests) => listed_requests(self.request_entries()) == Some(
                    request_views(requests@),
                ) && enumerates(self.request_entries(), self.requests()),
                Err(e) => e == SwapError::Storage || (e == SwapError::Malformed && listed_requests(
                    self.request_entries(),
                ) is None),
            },
    {
        proof {
            lemma_table_names();
        }
        match read_listing(&self.db, REQUESTS_TABLE) {
            Ok(entries) => requests_from(&entries),
            Err(_) => Err(SwapError::Storage),
        }
    }

    /// Every completed offer, in ascending order of the keys.
    pub fn get_all_offers(&self) -> (r: Result<Vec<Offer>, SwapError>)
        ensures
            match r {
                Ok(offers) => listed_offers(self.offer_entries()) == Some(offer_views(offers@))
                    && enumerates(self.offer_entries(), self.offers()),
                Err(e) => e == SwapError::Storage || (e == SwapError::Malformed && listed_offers(
                    self.offer_entries(),
                ) is None),
            },
    {
        proof {
            lemma_table_names();
        }
        match read_listing(&self.db, OFFERS_TABLE) {
            Ok(entries) => offers_from(&entries),
            Err(_) => Err(SwapError::Storage),
        }
    }

    /// The first position of `offer` among the completed offers.
    pub fn get_swap_index(&self, offer: &Offer) -> (r: Result<Option<usize>, SwapError>)
        ensures
            match r {
                Ok(Some(index)) => {
                    &&& listed_offers(self.offer_entries()) is Some
                    &&& index < listed_offers(self.offer_entries()).unwrap().len()
                    &&& listed_offers(self.offer_entries()).unwrap()[index as int] == offer@
                    &&& forall|j: int|
                        0 <= j < index ==> #[trigger] listed_offers(
                            self.offer_entries(),
                        ).unwrap()[j] != offer@
                },
                Ok(None) => listed_offers(self.offer_entries()) is Some && !listed_offers(
                    self.offer_entries(),
                ).unwrap().contains(offer@),
                Err(e) => e == SwapError::Storage || (e == SwapError::Malformed && listed_offers(
                    self.offer_entries(),
                ) is None),
            },
            r is Ok ==> enumerates(self.offer_entries(), self.offers()),
    {
        match self.get_all_offers() {
            Ok(offers) => {
                let found = index_of(&offers, offer);
                proof {
                    let listed = listed_offers(self.offer_entries()).unwrap();
                    assert(listed == offer_views(offers@));
                    assert forall|j: int| 0 <= j < listed.len() implies listed[j] == offers@[j]@ by {}
                }
                Ok(found)
            },
            Err(e) => Err(e),
        }
    }

    /// The completed offer at `index`; `IndexOutOfRange` where the
    /// offers can be read and there are no more than `index`.
    pub fn get_complete_offer(&self, index: usize) -> (r: Result<Offer, SwapError>)
        ensures
            match r {
                Ok(offer) => {
                    &&& listed_offers(self.offer_entries()) is Some
                    &&& index < listed_offers(self.offer_entries()).unwrap().len()
                    &&& listed_offers(self.offer_entries()).unwrap()[index as int] == offer@
                },
                Err(e) => e == SwapError::Storage || (e == SwapError::Malformed && listed_offers(
                    self.offer_entries(),
                ) is None) || (e == SwapError::IndexOutOfRange && listed_offers(
                    self.offer_entries(),
                ) is Some && index >= listed_offers(self.offer_entries()).unwrap().len()),
            },
    {
        match self.get_all_offers() {
            Ok(offers) => {
                proof {
                    let listed = listed_offers(self.offer_entries()).unwrap();
                    assert(listed == offer_views(offers@));
                    assert(listed.len() == offers@.len());
                    if index < offers@.len() {
                        assert(listed[index as int] == offers@[index as int]@);
                    }
                }
                offer_at(offers, index)
            },
            Err(e) => Err(e),
        }
    }

    /// Stores a request under the SHA-256 of its canonical bytes, in
    /// place of what stood there.
    pub fn add_pending_offer(&mut self, offer: OfferRequest) -> (r: Result<(), SwapError>)
        ensures
            final(self).preimages() == old(self).preimages(),
            final(self).offers() == old(self).offers(),
            final(self).requests() == old(self).requests().insert(
                request_key(offer@),
                canonical_request(offer@),
            ) || (r is Err && final(self).requests() == old(self).requests()),
            r matches Err(e) ==> e == SwapError::Storage,
    {
        proof {
            lemma_table_names();
        }
        let bytes = offer.to_bytes();
        let hash = sha256_of(bytes.as_slice());
        if table_put(&mut self.db, REQUESTS_TABLE, hash.as_slice(), bytes.as_slice()) {
            Ok(())
        } else {
            Err(SwapError::Storage)
        }
    }

    /// The request stored under `offer_hash`, where the entry is the
    /// canonical form of a request with that hash.
    pub fn get_pending_offer(&self, offer_hash: &[u8]) -> (r: Result<
        Option<OfferRequest>,
        SwapError,
    >)
        ensures
            match r {
                Ok(Some(request)) => pending_offer(self.requests(), offer_hash@) == Ok::<
                    Option<OfferRequestView>,
                    SwapError,
                >(Some(request@)),
                Ok(None) => pending_offer(self.requests(), offer_hash@) == Ok::<
                    Option<OfferRequestView>,
                    SwapError,
                >(None),
                Err(e) => e == SwapError::Storage || pending_offer(self.requests(), offer_hash@)
                    == Err::<Option<OfferRequestView>, SwapError>(e),
            },
    {
        proof {
            lemma_table_names();
        }
        match table_get(&self.db, REQUESTS_TABLE, offer_hash) {
            Ok(found) => pending_offer_from(found, offer_hash),
            Err(_) => Err(SwapError::Storage),
        }
    }

    /// Stores the preimage of a request under the key of the request,
    /// in place of what stood there.
    pub fn add_preimage(&mut self, offer: OfferRequest, preimage: [u8; 32]) -> (r: Result<
        (),
        SwapError,
    >)
        requires
            sha256(preimage@) == offer.preimage_hash@,
        ensures
            final(self).requests() == old(self).requests(),
            final(self).offers() == old(self).offers(),
            final(self).preimages() == old(self).preimages().insert(request_key(offer@), preimage@)
                || (r is Err && final(self).preimages() == old(self).preimages()),
            r matches Err(e) ==> e == SwapError::Storage,
    {
        proof {
            lemma_table_names();
        }
        let bytes = offer.to_bytes();
        let hash = sha256_of(bytes.as_slice());
        if table_put_32(&mut self.db, PREIMAGES_TABLE, hash.as_slice(), &preimage) {
            Ok(())
        } else {
            Err(SwapError::Storage)
        }
    }

    /// The preimage stored under `offer_hash`. Where the request stands
    /// under that hash too, the preimage is held to the hash that the
    /// request names.
    pub fn get_preimage(&self, offer_hash: &[u8]) -> (r: Result<Option<[u8; 32]>, SwapError>)
        ensures
            match r {
                Ok(Some(preimage)) => stored_preimage(
                    self.preimages(),
                    self.requests(),
                    offer_hash@,
                ) == Ok::<Option<Seq<u8>>, SwapError>(Some(preimage@)),
                Ok(None) => stored_preimage(self.preimages(), self.requests(), offer_hash@) == Ok::<
                    Option<Seq<u8>>,
                    SwapError,
                >(None),
                Err(e) => e == SwapError::Storage || stored_preimage(
                    self.preimages(),
                    self.requests(),
                    offer_hash@,
                ) == Err::<Option<Seq<u8>>, SwapError>(e),
            },
    {
        proof {
            lemma_table_names();
        }
        let preimage = match table_get_32(&self.db, PREIMAGES_TABLE, offer_hash) {
            Ok(Some(preimage)) => preimage,
            Ok(None) => {
                return Ok(None);
            },
            Err(_) => {
                return Err(SwapError::Storage);
            },
        };
        match self.get_pending_offer(offer_hash) {
            Ok(request) => match vouched_preimage(preimage, &request) {
                Ok(preimage) => Ok(Some(preimage)),
                Err(e) => Err(e),
            },
            Err(SwapError::Storage) => Err(SwapError::Storage),
            // what stands under the key is no request to hold the preimage to
            Err(_) => Ok(Some(preimage)),
        }
    }

    /// Joins a response with the request that it names and stores the
    /// completed offer under the hash of the request.
    pub fn add_offer_response(&mut self, response: OfferResponse) -> (r: Result<Offer, SwapError>)
        ensures
            final(self).requests() == old(self).requests(),
            final(self).preimages() == old(self).preimages(),
            match r {
                Ok(offer) => {
                    &&& response_outcome(old(self).requests(), response@) == Ok::<
                        OfferView,
                        SwapError,
                    >(offer@)
                    &&& final(self).offers() == offers_after(
                        old(self).offers(),
                        old(self).requests(),
                        response@,
                    )
                },
                Err(e) => if response_outcome(old(self).requests(), response@) is Ok {
                    e == SwapError::Storage && (final(self).offers() == old(self).offers()
                        || final(self).offers() == offers_after(
                        old(self).offers(),
                        old(self).requests(),
                        response@,
                    ))
                } else {
                    final(self).offers() == old(self).offers() && (e == SwapError::Storage
                        || response_outcome(old(self).requests(), response@) == Err::<
                        OfferView,
                        SwapError,
                    >(e))
                },
            },
    {
        proof {
            lemma_table_names();
        }
        let request = match self.get_pending_offer(response.request_hash.as_slice()) {
            Ok(Some(request)) => request,
            Ok(None) => {
                return Err(SwapError::MissingRequest);
            },
            Err(e) => {
                return Err(e);
            },
        };
        let complete_offer = match complete_offer(&request, &response) {
            Ok(offer) => offer,
            Err(e) => {
                return Err(e);
            },
        };
        let bytes = complete_offer.to_bytes();
        if table_put(
            &mut self.db,
            OFFERS_TABLE,
            response.request_hash.as_slice(),
            bytes.as_slice(),
        ) {
            Ok(complete_offer)
        } else {
            Err(SwapError::Storage)
        }
    }
}

} // verus!
