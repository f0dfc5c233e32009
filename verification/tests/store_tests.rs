use gauloi::error::SwapError;
use gauloi::hashes::sha256_of;
use gauloi::offer::{Offer, OfferRequest, OfferResponse};
use gauloi::swaps::SwapStorage;
use redb::backends::InMemoryBackend;
use redb::{Database, TableDefinition};

fn database() -> Database {
    Database::builder().create_with_backend(InMemoryBackend::new()).unwrap()
}

fn store() -> SwapStorage {
    SwapStorage::new(database())
}

fn request_with(preimage: &[u8; 32], sold: u128, lockup_btc: u8) -> OfferRequest {
    OfferRequest {
        version: 0,
        sold,
        bought: 50_000_000_000,
        lockup_btc,
        seller_pubkey_hash: [2u8; 20],
        seller_eth_address: [3u8; 20],
        preimage_hash: sha256_of(preimage),
    }
}

fn response_to(request: &OfferRequest, lockup_eth: u8) -> OfferResponse {
    OfferResponse {
        version: request.version,
        sold: request.sold,
        bought: request.bought,
        lockup_eth,
        buyer_pubkey_hash: [1u8; 20],
        buyer_eth_address: [4u8; 20],
        request_hash: sha256_of(&request.to_bytes()),
    }
}

#[test]
fn pending_offer_is_found_by_the_hash_of_its_bytes() {
    let mut store = store();
    let request = request_with(&[9u8; 32], 100_000, 10);
    let key = sha256_of(&request.to_bytes());
    assert!(store.get_pending_offer(&key).unwrap().is_none());
    store.add_pending_offer(request).unwrap();
    let found = store.get_pending_offer(&key).unwrap().unwrap();
    assert_eq!(found.to_bytes(), request.to_bytes());
    assert!(store.get_pending_offer(&[0u8; 32]).unwrap().is_none());
    assert_eq!(store.get_all_offer_requests().unwrap().len(), 1);
    // storing the same request again changes nothing
    store.add_pending_offer(request).unwrap();
    assert_eq!(store.get_all_offer_requests().unwrap().len(), 1);
}

#[test]
fn stored_preimage_hashes_to_the_preimage_hash_of_its_request() {
    let mut store = store();
    let preimage = [7u8; 32];
    let request = request_with(&preimage, 100_000, 10);
    let key = sha256_of(&request.to_bytes());
    assert_eq!(store.get_preimage(&key).unwrap(), None);
    store.add_pending_offer(request).unwrap();
    store.add_preimage(request, preimage).unwrap();
    let found = store.get_preimage(&key).unwrap().unwrap();
    assert_eq!(found, preimage);
    let stored_request = store.get_pending_offer(&key).unwrap().unwrap();
    assert_eq!(sha256_of(&found), stored_request.preimage_hash);
}

#[test]
fn preimage_without_its_request_is_read_back() {
    let mut store = store();
    let preimage = [7u8; 32];
    let request = request_with(&preimage, 100_000, 10);
    store.add_preimage(request, preimage).unwrap();
    let key = sha256_of(&request.to_bytes());
    assert_eq!(store.get_preimage(&key).unwrap(), Some(preimage));
    // the request may come later
    store.add_pending_offer(request).unwrap();
    assert_eq!(store.get_preimage(&key).unwrap(), Some(preimage));
    assert_eq!(store.get_preimage(&[0u8; 32]).unwrap(), None);
}

#[test]
fn preimage_beside_an_entry_that_is_no_request_is_read_back() {
    let db = database();
    let requests: TableDefinition<&[u8], &[u8]> = TableDefinition::new("swap_data");
    let preimages: TableDefinition<&[u8], &[u8; 32]> = TableDefinition::new("preimages");
    let tx = db.begin_write().unwrap();
    {
        let mut table = tx.open_table(requests).unwrap();
        table.insert([1u8; 32].as_slice(), [0xa0u8].as_slice()).unwrap();
        let mut table = tx.open_table(preimages).unwrap();
        table.insert([1u8; 32].as_slice(), &[8u8; 32]).unwrap();
    }
    tx.commit().unwrap();
    let store = SwapStorage::new(db);
    assert_eq!(store.get_pending_offer(&[1u8; 32]).err(), Some(SwapError::Malformed));
    assert_eq!(store.get_preimage(&[1u8; 32]).unwrap(), Some([8u8; 32]));
}

#[test]
fn preimage_that_does_not_match_its_request_is_not_handed_out() {
    let db = database();
    let request = request_with(&[7u8; 32], 100_000, 10);
    let key = sha256_of(&request.to_bytes());
    let preimages: TableDefinition<&[u8], &[u8; 32]> = TableDefinition::new("preimages");
    let tx = db.begin_write().unwrap();
    {
        let mut table = tx.open_table(preimages).unwrap();
        table.insert(key.as_slice(), &[8u8; 32]).unwrap();
    }
    tx.commit().unwrap();
    let mut store = SwapStorage::new(db);
    store.add_pending_offer(request).unwrap();
    assert_eq!(store.get_preimage(&key).err(), Some(SwapError::Malformed));
}

#[test]
fn response_without_request_is_missing_request() {
    let mut store = store();
    let request = request_with(&[7u8; 32], 100_000, 10);
    let r = store.add_offer_response(response_to(&request, 5));
    assert_eq!(r.err(), Some(SwapError::MissingRequest));
    assert!(store.get_all_offers().unwrap().is_empty());
}

#[test]
fn response_completes_the_offer() {
    let mut store = store();
    let request = request_with(&[7u8; 32], 100_000, 10);
    let response = response_to(&request, 5);
    store.add_pending_offer(request).unwrap();
    let offer = store.add_offer_response(response).unwrap();
    assert_eq!(offer.version, 0);
    assert_eq!(offer.sold, 100_000);
    assert_eq!(offer.bought, 50_000_000_000);
    assert_eq!(offer.lockup_eth, 5);
    assert_eq!(offer.lockup_btc, 10);
    assert_eq!(offer.seller_pubkey_hash, [2u8; 20]);
    assert_eq!(offer.buyer_pubkey_hash, [1u8; 20]);
    assert_eq!(offer.seller_eth_address, [3u8; 20]);
    assert_eq!(offer.buyer_eth_address, [4u8; 20]);
    assert_eq!(offer.swap_id_hex, None);
    assert_eq!(offer.preimage_hash, request.preimage_hash);
    assert_eq!(offer.request_hash, response.request_hash);
    assert_eq!(offer.request_hash, sha256_of(&request.to_bytes()));
    let all = store.get_all_offers().unwrap();
    assert_eq!(all.len(), 1);
    assert_eq!(all[0].to_bytes(), offer.to_bytes());
    assert_eq!(store.get_swap_index(&offer).unwrap(), Some(0));
    assert_eq!(store.get_complete_offer(0).unwrap().to_bytes(), offer.to_bytes());
    assert_eq!(store.get_complete_offer(1).err(), Some(SwapError::IndexOutOfRange));
}

#[test]
fn adding_a_response_twice_stores_the_same_offer() {
    let mut store = store();
    let request = request_with(&[7u8; 32], 100_000, 10);
    let response = response_to(&request, 5);
    store.add_pending_offer(request).unwrap();
    let first = store.add_offer_response(response).unwrap();
    let after_first: Vec<Vec<u8>> =
        store.get_all_offers().unwrap().iter().map(Offer::to_bytes).collect();
    let second = store.add_offer_response(response).unwrap();
    let after_second: Vec<Vec<u8>> =
        store.get_all_offers().unwrap().iter().map(Offer::to_bytes).collect();
    assert_eq!(first.to_bytes(), second.to_bytes());
    assert_eq!(after_first, after_second);
    assert_eq!(after_second.len(), 1);
}

#[test]
fn response_that_disagrees_with_the_request_is_refused() {
    let mut store = store();
    let request = request_with(&[7u8; 32], 100_000, 10);
    store.add_pending_offer(request).unwrap();
    let mut other_amount = response_to(&request, 5);
    other_amount.sold += 1;
    assert_eq!(
        store.add_offer_response(other_amount).err(),
        Some(SwapError::MismatchedResponse)
    );
    let mut other_price = response_to(&request, 5);
    other_price.bought -= 1;
    assert_eq!(
        store.add_offer_response(other_price).err(),
        Some(SwapError::MismatchedResponse)
    );
    let mut other_version = response_to(&request, 5);
    other_version.version = 1;
    assert_eq!(
        store.add_offer_response(other_version).err(),
        Some(SwapError::MismatchedResponse)
    );
    assert!(store.get_all_offers().unwrap().is_empty());
}

#[test]
fn request_of_another_version_is_not_completed() {
    let mut store = store();
    let mut request = request_with(&[7u8; 32], 100_000, 10);
    request.version = 1;
    store.add_pending_offer(request).unwrap();
    assert_eq!(
        store.add_offer_response(response_to(&request, 5)).err(),
        Some(SwapError::MismatchedResponse)
    );
}

#[test]
fn eth_lockup_must_be_shorter_than_btc_lockup() {
    let mut store = store();
    let request = request_with(&[7u8; 32], 100_000, 10);
    store.add_pending_offer(request).unwrap();
    assert_eq!(
        store.add_offer_response(response_to(&request, 10)).err(),
        Some(SwapError::UnsafeLockup)
    );
    assert_eq!(
        store.add_offer_response(response_to(&request, 11)).err(),
        Some(SwapError::UnsafeLockup)
    );
    assert!(store.add_offer_response(response_to(&request, 9)).is_ok());
    assert!(store.add_offer_response(response_to(&request, 0)).is_ok());
}

#[test]
fn offers_are_listed_in_one_order_and_found_by_equality() {
    let mut store = store();
    let mut offers = Vec::new();
    for n in 0..5u8 {
        let request = request_with(&[n; 32], 100_000 + n as u128, 10);
        store.add_pending_offer(request).unwrap();
        offers.push(store.add_offer_response(response_to(&request, 5)).unwrap());
    }
    let listed = store.get_all_offers().unwrap();
    let again = store.get_all_offers().unwrap();
    assert_eq!(listed.len(), 5);
    assert_eq!(
        listed.iter().map(Offer::to_bytes).collect::<Vec<_>>(),
        again.iter().map(Offer::to_bytes).collect::<Vec<_>>()
    );
    let mut seen = Vec::new();
    for offer in &offers {
        let index = store.get_swap_index(offer).unwrap().unwrap();
        assert_eq!(listed[index].to_bytes(), offer.to_bytes());
        assert_eq!(store.get_complete_offer(index).unwrap().to_bytes(), offer.to_bytes());
        assert!(!seen.contains(&index));
        seen.push(index);
    }
    let mut unknown = offers[0].clone();
    unknown.lockup_eth = 1;
    assert_eq!(store.get_swap_index(&unknown).unwrap(), None);
    assert_eq!(store.get_complete_offer(5).err(), Some(SwapError::IndexOutOfRange));
}

#[test]
fn entry_that_is_no_canonical_request_is_malformed() {
    let db = database();
    let requests: TableDefinition<&[u8], &[u8]> = TableDefinition::new("swap_data");
    let tx = db.begin_write().unwrap();
    {
        let mut table = tx.open_table(requests).unwrap();
        table.insert([1u8; 32].as_slice(), [0xa0u8].as_slice()).unwrap();
    }
    tx.commit().unwrap();
    let store = SwapStorage::new(db);
    assert_eq!(store.get_pending_offer(&[1u8; 32]).err(), Some(SwapError::Malformed));
    assert_eq!(store.get_all_offer_requests().err(), Some(SwapError::Malformed));
}

#[test]
fn request_under_another_key_is_malformed() {
    let db = database();
    let request = request_with(&[7u8; 32], 100_000, 10);
    let requests: TableDefinition<&[u8], &[u8]> = TableDefinition::new("swap_data");
    let tx = db.begin_write().unwrap();
    {
        let mut table = tx.open_table(requests).unwrap();
        table.insert([1u8; 32].as_slice(), request.to_bytes().as_slice()).unwrap();
    }
    tx.commit().unwrap();
    let mut store = SwapStorage::new(db);
    assert_eq!(store.get_pending_offer(&[1u8; 32]).err(), Some(SwapError::Malformed));
    let mut response = response_to(&request, 5);
    response.request_hash = [1u8; 32];
    assert_eq!(store.add_offer_response(response).err(), Some(SwapError::Malformed));
}

#[test]
fn table_of_another_type_is_a_storage_failure() {
    let db = database();
    let other: TableDefinition<u64, u64> = TableDefinition::new("swap_data");
    let tx = db.begin_write().unwrap();
    {
        let mut table = tx.open_table(other).unwrap();
        table.insert(1, 2).unwrap();
    }
    tx.commit().unwrap();
    let mut store = SwapStorage::new(db);
    let request = request_with(&[7u8; 32], 100_000, 10);
    assert_eq!(store.get_pending_offer(&[1u8; 32]).err(), Some(SwapError::Storage));
    assert_eq!(store.get_all_offer_requests().err(), Some(SwapError::Storage));
    assert_eq!(store.add_pending_offer(request).err(), Some(SwapError::Storage));
    assert_eq!(
        store.add_offer_response(response_to(&request, 5)).err(),
        Some(SwapError::Storage)
    );
    // the other tables are not touched by it
    assert!(store.get_all_offers().unwrap().is_empty());
    assert_eq!(store.get_preimage(&[1u8; 32]).unwrap(), None);
}

#[test]
fn listings_ascend_by_the_hash_of_the_request() {
    let mut store = store();
    let mut keys: Vec<[u8; 32]> = Vec::new();
    for sold in [5u128, 1, 4, 2, 3, 9, 7, 8, 6] {
        let request = request_with(&[9u8; 32], sold, 10);
        store.add_pending_offer(request).unwrap();
        store.add_offer_response(response_to(&request, 5)).unwrap();
        keys.push(sha256_of(&request.to_bytes()));
    }
    keys.sort();
    let requests = store.get_all_offer_requests().unwrap();
    let listed: Vec<[u8; 32]> = requests.iter().map(|r| sha256_of(&r.to_bytes())).collect();
    assert_eq!(listed, keys);
    let offers = store.get_all_offers().unwrap();
    let listed: Vec<[u8; 32]> = offers.iter().map(|o| o.request_hash).collect();
    assert_eq!(listed, keys);
    // a write of what is there already leaves every place as it was
    let again = request_with(&[9u8; 32], 4, 10);
    store.add_pending_offer(again).unwrap();
    store.add_offer_response(response_to(&again, 5)).unwrap();
    let after = store.get_all_offers().unwrap();
    assert_eq!(after.len(), offers.len());
    for (index, offer) in offers.iter().enumerate() {
        assert_eq!(after[index].to_bytes(), offer.to_bytes());
        assert_eq!(store.get_swap_index(offer).unwrap(), Some(index));
    }
}
