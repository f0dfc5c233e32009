//! Listing the completed offers.

use vstd::prelude::*;
use crate::error::SwapError;
use crate::hexcode::{encode, hex_chars};
use crate::offer::Offer;
use crate::swaps::{listed_offers, SwapStorage};

verus! {

/// List the pending offers we have created.
#[derive(Debug, Clone, Copy)]
pub struct ListArgs {}

/// What the list shows of one offer.
#[derive(Debug, Clone)]
pub struct OfferLine {
    /// The index under which the swap can be executed.
    pub index: usize,
    /// Amount of ETH bought, in wei.
    pub bought: u128,
    /// Amount of BTC sold, in satoshis.
    pub sold: u128,
    /// Number of blocks the BTC stays locked.
    pub lockup: u8,
    /// The preimage hash, in hexadecimal.
    pub preimage_hash: String,
    /// Whether the swap can be executed.
    pub ready: bool,
}

/// The line that the list shows for `offer` at `index`.
pub fn line_of(index: usize, offer: &Offer) -> (line: OfferLine)
    ensures
        line.index == index,
        line.bought == offer.bought,
        line.sold == offer.sold,
        line.lockup == offer.lockup_btc,
        line.preimage_hash@ == hex_chars(offer.preimage_hash@),
        line.ready,
{
    OfferLine {
        index,
        bought: offer.bought,
        sold: offer.sold,
        lockup: offer.lockup_btc,
        preimage_hash: encode(offer.preimage_hash.as_slice()),
        ready: true,
    }
}

/// The lines of the list: one for each completed offer, in the order
/// of the table, each under its index.
pub fn print_all(db: &SwapStorage, _args: ListArgs) -> (r: Result<Vec<OfferLine>, SwapError>)
    ensures
        match r {
            Ok(lines) => {
                &&& listed_offers(db.offer_entries()) matches Some(listed)
                &&& lines@.len() == listed.len()
                &&& forall|i: int|
                    0 <= i < lines@.len() ==> {
                        &&& (#[trigger] lines@[i]).index == i
                        &&& lines@[i].bought == listed[i].bought
                        &&& lines@[i].sold == listed[i].sold
                        &&& lines@[i].lockup == listed[i].lockup_btc
                        &&& lines@[i].preimage_hash@ == hex_chars(listed[i].preimage_hash)
                    }
            },
            Err(e) => e == SwapError::Storage || (e == SwapError::Malformed && listed_offers(
                db.offer_entries(),
            ) is None),
        },
{
    let all_swaps = match db.get_all_offers() {
        Ok(offers) => offers,
        Err(e) => {
            return Err(e);
        },
    };
    let ghost listed = listed_offers(db.offer_entries()).unwrap();
    let mut lines: Vec<OfferLine> = Vec::new();
    let mut index: usize = 0;
    while index < all_swaps.len()
        invariant
            index <= all_swaps.len(),
            lines@.len() == index,
            listed.len() == all_swaps@.len(),
            forall|i: int| 0 <= i < all_swaps@.len() ==> listed[i] == (#[trigger] all_swaps@[i])@,
            forall|i: int|
                0 <= i < lines@.len() ==> {
                    &&& (#[trigger] lines@[i]).index == i
                    &&& lines@[i].bought == listed[i].bought
                    &&& lines@[i].sold == listed[i].sold
                    &&& lines@[i].lockup == listed[i].lockup_btc
                    &&& lines@[i].preimage_hash@ == hex_chars(listed[i].preimage_hash)
                },
        decreases all_swaps.len() - index,
    {
        lines.push(line_of(index, &all_swaps[index]));
        index += 1;
    }
    Ok(lines)
}

} // verus!
