//! Answering an offer that the counterparty created.

use vstd::prelude::*;
use crate::canonical::{
    canonical_offer, canonical_request, canonical_response, decoded_request,
    lemma_decoded_request,
};
use crate::error::SwapError;
use crate::eth_api::U256;
use crate::hashes::sha256_of;
use crate::hexcode::{hex_bytes, hex_chars, is_hex};
use crate::bytes::same_bytes;
use crate::offer::{OfferRequest, OfferResponse, OfferResponseView, VERSION};
use crate::state::{btc_pubkey_of, eth_address_of, hash160, master_secret_of, GauloiState};
use crate::swaps::{complete_offer, joined, request_key, SwapStorage};

verus! {

/// Parse the offer that a seller sent.
#[derive(Debug, Clone)]
pub struct ParseOfferArgs {
    /// Hex encoded offer.
    pub offer: String,
}

/// What the buyer is to make of an offer.
#[derive(Debug, Clone, Copy)]
pub enum OfferReview {
    /// The offer is one that the local party created.
    OwnOffer,
    /// The local party holds less ETH than the offer asks for.
    InsufficientBalance,
    /// The offer can be answered.
    Proposal(OfferRequest),
}

/// Reads the offer of a seller and looks whether the local party can
/// answer it.
pub fn parse_offer(state: &GauloiState, args: &ParseOfferArgs, eth_balance: U256) -> (r: Result<
    OfferReview,
    SwapError,
>)
    ensures
        match r {
            Ok(review) => {
                &&& is_hex(args.offer@)
                &&& decoded_request(hex_bytes(args.offer@)) is Some
                &&& btc_pubkey_of(state.master_extended@) is Some
                &&& ({
                    let request = decoded_request(hex_bytes(args.offer@)).unwrap();
                    let ours = hash160(btc_pubkey_of(state.master_extended@).unwrap());
                    match review {
                        OfferReview::OwnOffer => request.seller_pubkey_hash == ours,
                        OfferReview::InsufficientBalance => request.seller_pubkey_hash != ours
                            && eth_balance.value() < request.bought,
                        OfferReview::Proposal(proposed) => request.seller_pubkey_hash != ours
                            && eth_balance.value() >= request.bought && proposed@ == request,
                    }
                })
            },
            Err(e) => if is_hex(args.offer@) && decoded_request(hex_bytes(args.offer@)) is Some {
                e == SwapError::Keyring && btc_pubkey_of(state.master_extended@) is None
            } else {
                e == SwapError::Malformed
            },
        },
{
    let offer = match OfferRequest::from_hex(args.offer.as_str()) {
        Ok(offer) => offer,
        Err(_) => {
            return Err(SwapError::Malformed);
        },
    };
    let ours = match state.our_pubkey_hash() {
        Ok(hash) => hash,
        Err(_) => {
            return Err(SwapError::Keyring);
        },
    };
    let seller_is_us = same_bytes(offer.seller_pubkey_hash.as_slice(), ours.as_slice());
    if seller_is_us {
        Ok(OfferReview::OwnOffer)
    } else if eth_balance.below_u128(offer.bought) {
        Ok(OfferReview::InsufficientBalance)
    } else {
        Ok(OfferReview::Proposal(offer))
    }
}

/// The response of the buyer given to `request`: the amounts of the
/// request, the lockup named, or that of the request where none is.
pub open spec fn response_to(
    request: OfferRequest,
    lockup_eth: Option<u8>,
    buyer_pubkey_hash: Seq<u8>,
    buyer_eth_address: Seq<u8>,
) -> OfferResponseView {
    OfferResponseView {
        version: VERSION,
        sold: request.sold,
        bought: request.bought,
        lockup_eth: match lockup_eth {
            Some(lockup) => lockup,
            None => request.lockup_btc,
        },
        buyer_pubkey_hash,
        buyer_eth_address,
        request_hash: request_key(request@),
    }
}

/// The response that the party of `state` gives to `request`; it is
/// meant for a usable `state`.
pub open spec fn own_response(
    state: GauloiState,
    request: OfferRequest,
    lockup_eth: Option<u8>,
) -> OfferResponseView {
    response_to(
        request,
        lockup_eth,
        hash160(btc_pubkey_of(state.master_extended@).unwrap()),
        eth_address_of(master_secret_of(state.master_extended@).unwrap()).unwrap(),
    )
}

/// Accepts an offer: stores the request, answers it in the name of the
/// local party, stores the completed offer, and hands out the response
/// with the text to send back to the seller.
///
/// The ETH lockup must be strictly shorter than the BTC lockup of the
/// request, so that the seller can claim the ETH before the refund of
/// the BTC opens; where `lockup_eth` is absent the lockup of the request
/// stands in, which is refused for that reason.
///
/// Where the database fails, each of the two tables is as it was or
/// holds its new entry, and nothing else.
pub fn respond_to_offer(
    state: &GauloiState,
    db: &mut SwapStorage,
    request: OfferRequest,
    lockup_eth: Option<u8>,
) -> (r: Result<(OfferResponse, String), SwapError>)
    ensures
        final(db).preimages() == old(db).preimages(),
        match r {
            Ok((response, text)) => {
                &&& btc_pubkey_of(state.master_extended@) is Some
                &&& master_secret_of(state.master_extended@) is Some
                &&& eth_address_of(master_secret_of(state.master_extended@).unwrap()) == Some(
                    response.buyer_eth_address@,
                )
                &&& response@ == response_to(
                    request,
                    lockup_eth,
                    hash160(btc_pubkey_of(state.master_extended@).unwrap()),
                    response.buyer_eth_address@,
                )
                &&& request.version == VERSION
                &&& response.lockup_eth < request.lockup_btc
                &&& text@ == hex_chars(canonical_response(response@))
                &&& final(db).requests() == old(db).requests().insert(
                    request_key(request@),
                    canonical_request(request@),
                )
                &&& final(db).offers() == old(db).offers().insert(
                    request_key(request@),
                    canonical_offer(joined(request@, response@)),
                )
            },
            Err(e) => {
                &&& e != SwapError::Storage ==> final(db).requests() == old(db).requests()
                &&& e != SwapError::Storage ==> final(db).offers() == old(db).offers()
                &&& if !state.usable() {
                    e == SwapError::Keyring
                } else if request.version != VERSION {
                    e == SwapError::MismatchedResponse
                } else if response_to(request, lockup_eth, Seq::empty(), Seq::empty()).lockup_eth
                    >= request.lockup_btc {
                    e == SwapError::UnsafeLockup
                } else {
                    &&& e == SwapError::Storage
                    &&& final(db).requests() == old(db).requests() || final(db).requests() == old(
                        db,
                    ).requests().insert(request_key(request@), canonical_request(request@))
                    &&& final(db).offers() == old(db).offers() || final(db).offers() == old(
                        db,
                    ).offers().insert(
                        request_key(request@),
                        canonical_offer(joined(request@, own_response(*state, request, lockup_eth))),
                    )
                }
            },
        },
{
    let my_pubkey_hash = match state.our_pubkey_hash() {
        Ok(hash) => hash,
        Err(_) => {
            return Err(SwapError::Keyring);
        },
    };
    let my_eth_address = match state.eth_address() {
        Ok(address) => address,
        Err(_) => {
            return Err(SwapError::Keyring);
        },
    };
    let bytes = request.to_bytes();
    let request_hash = sha256_of(bytes.as_slice());
    let response = OfferResponse {
        version: VERSION,
        sold: request.sold,
        bought: request.bought,
        lockup_eth: match lockup_eth {
            Some(lockup) => lockup,
            None => request.lockup_btc,
        },
        buyer_pubkey_hash: my_pubkey_hash,
        buyer_eth_address: my_eth_address,
        request_hash,
    };
    match complete_offer(&request, &response) {
        Ok(_) => {},
        Err(e) => {
            return Err(e);
        },
    }
    if db.add_pending_offer(request).is_err() {
        return Err(SwapError::Storage);
    }
    proof {
        lemma_decoded_request(request@);
    }
    match db.add_offer_response(response) {
        Ok(_) => {
            let text = response.to_hex();
            Ok((response, text))
        },
        Err(_) => Err(SwapError::Storage),
    }
}

} // verus!
