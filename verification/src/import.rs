//! Importing the response to an offer that we created.

use vstd::prelude::*;
use crate::canonical::{canonical_offer, decoded_response, lemma_decoded_offer};
use crate::error::SwapError;
use crate::hexcode::{hex_bytes, is_hex};
use crate::offer::{OfferResponse, OfferView};
use crate::swaps::{enumerates, listed_offers, offers_after, response_outcome, SwapStorage};

verus! {

/// Import an offer response.
#[derive(Debug, Clone)]
pub struct ImportOfferArgs {
    /// Hex encoded offer response.
    pub offer: String,
}

/// Among the offers listed from a table stands every offer whose
/// canonical bytes the table holds.
pub proof fn lemma_stored_offer_is_listed(
    entries: Seq<(Seq<u8>, Seq<u8>)>,
    table: Map<Seq<u8>, Seq<u8>>,
    key: Seq<u8>,
    offer: OfferView,
)
    requires
        enumerates(entries, table),
        listed_offers(entries) is Some,
        table.contains_pair(key, canonical_offer(offer)),
        offer.wf(),
    ensures
        listed_offers(entries).unwrap().contains(offer),
{
    let i = choose|i: int| 0 <= i < entries.len() && (#[trigger] entries[i]).0 == key;
    assert(table.contains_pair(entries[i].0, entries[i].1));
    lemma_decoded_offer(offer);
    assert(listed_offers(entries).unwrap()[i] == offer);
}

/// Reads the response of a buyer, completes the offer that it answers,
/// and hands out the index under which the swap can be executed.
pub fn import_offer_response(db: &mut SwapStorage, args: &ImportOfferArgs) -> (r: Result<
    usize,
    SwapError,
>)
    ensures
        final(db).requests() == old(db).requests(),
        final(db).preimages() == old(db).preimages(),
        match r {
            Ok(index) => {
                &&& is_hex(args.offer@)
                &&& decoded_response(hex_bytes(args.offer@)) matches Some(response)
                &&& response_outcome(old(db).requests(), response) matches Ok(offer)
                &&& final(db).offers() == offers_after(
                    old(db).offers(),
                    old(db).requests(),
                    response,
                )
                &&& listed_offers(final(db).offer_entries()) matches Some(listed)
                &&& index < listed.len()
                &&& listed[index as int] == offer
            },
            Err(e) => if !is_hex(args.offer@) || decoded_response(hex_bytes(args.offer@)) is None {
                e == SwapError::Malformed && final(db).offers() == old(db).offers()
            } else {
                let response = decoded_response(hex_bytes(args.offer@)).unwrap();
                match response_outcome(old(db).requests(), response) {
                    Err(refusal) => (e == refusal || e == SwapError::Storage) && final(db).offers()
                        == old(db).offers(),
                    Ok(_) => e == SwapError::Storage || e == SwapError::Malformed,
                }
            },
        },
{
    let offer_response = match OfferResponse::from_hex(args.offer.as_str()) {
        Ok(response) => response,
        Err(_) => {
            return Err(SwapError::Malformed);
        },
    };
    let complete_offer = match db.add_offer_response(offer_response) {
        Ok(offer) => offer,
        Err(e) => {
            return Err(e);
        },
    };
    match db.get_swap_index(&complete_offer) {
        Ok(Some(index)) => Ok(index),
        Ok(None) => {
            // The offer was stored a moment ago, so it is listed.
            proof {
                assert(complete_offer@.wf());
                lemma_stored_offer_is_listed(
                    db.offer_entries(),
                    db.offers(),
                    offer_response@.request_hash,
                    complete_offer@,
                );
            }
            Err(SwapError::Storage)
        },
        Err(e) => Err(e),
    }
}

} // verus!
