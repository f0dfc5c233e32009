//! Creating the offer for a swap that starts from Bitcoin.

use vstd::prelude::*;
use crate::canonical::canonical_request;
use crate::error::SwapError;
use crate::hashes::{sha256, sha256_of};
use crate::hexcode::hex_chars;
use crate::offer::{OfferRequest, OfferRequestView, VERSION};
use crate::state::{btc_pubkey_of, eth_address_of, hash160, master_secret_of, GauloiState};
use crate::swaps::{request_key, SwapStorage};

verus! {

/// Number of blocks that the BTC stays locked where none is named.
pub const DEFAULT_LOCKUP: u8 = 10;

/// The seller's unspent outputs do not cover the amount offered.
#[derive(Debug, Clone, Copy, PartialEq, Eq, Structural)]
pub struct InsufficientBtcBalanceError {}

impl InsufficientBtcBalanceError {
    /// A sentence for the user.
    pub fn message(&self) -> (text: String)
        ensures
            text@ == SwapError::InsufficientFunds.spec_message(),
    {
        SwapError::InsufficientFunds.message()
    }
}

/// What the seller offers.
#[derive(Debug, Clone, Copy)]
pub struct OfferTerms {
    /// Amount of BTC to sell, in satoshis.
    pub sold: u128,
    /// Amount of ETH to receive, in wei.
    pub bought: u128,
    /// Number of blocks for the BTC to be locked in the script.
    pub lockup_time: Option<u8>,
}

impl OfferTerms {
    /// The lockup that the terms name, or the default.
    pub open spec fn spec_lockup(&self) -> u8 {
        match self.lockup_time {
            Some(time) => time,
            None => DEFAULT_LOCKUP,
        }
    }

    /// The lockup that the terms name, or the default.
    pub fn lockup(&self) -> (time: u8)
        ensures
            time == self.spec_lockup(),
    {
        match self.lockup_time {
            Some(time) => time,
            None => DEFAULT_LOCKUP,
        }
    }
}

/// Whether a balance covers the amount to sell.
pub fn check_balance(balance: u128, sold: u128) -> (r: Result<(), InsufficientBtcBalanceError>)
    ensures
        r is Err <==> sold > balance,
{
    if sold > balance {
        Err(InsufficientBtcBalanceError {  })
    } else {
        Ok(())
    }
}

/// The request that offers `terms` on behalf of the seller given, with
/// the hash of `preimage` as the lock of both chains.
pub fn new_request(
    terms: &OfferTerms,
    seller_pubkey_hash: [u8; 20],
    seller_eth_address: [u8; 20],
    preimage: &[u8; 32],
) -> (request: OfferRequest)
    ensures
        request.version == VERSION,
        request.sold == terms.sold,
        request.bought == terms.bought,
        request.lockup_btc == terms.spec_lockup(),
        request.seller_pubkey_hash == seller_pubkey_hash,
        request.seller_eth_address == seller_eth_address,
        request.preimage_hash@ == sha256(preimage@),
{
    OfferRequest {
        version: VERSION,
        sold: terms.sold,
        bought: terms.bought,
        lockup_btc: terms.lockup(),
        seller_pubkey_hash,
        seller_eth_address,
        preimage_hash: sha256_of(preimage.as_slice()),
    }
}

/// Whether `request` offers `terms` in the name of the party of `state`.
pub open spec fn offers_terms(request: OfferRequestView, terms: OfferTerms, state: GauloiState) -> bool {
    &&& request.wf()
    &&& request.version == VERSION
    &&& request.sold == terms.sold
    &&& request.bought == terms.bought
    &&& request.lockup_btc == terms.spec_lockup()
    &&& btc_pubkey_of(state.master_extended@) matches Some(pubkey)
    &&& request.seller_pubkey_hash == hash160(pubkey)
    &&& master_secret_of(state.master_extended@) matches Some(secret)
    &&& eth_address_of(secret) == Some(request.seller_eth_address)
}

/// How the storing of `request` with its `preimage` leaves the two
/// tables where the database failed on the way: each table is as it
/// was, or holds its new entry.
pub open spec fn partly_stored(
    requests_before: Map<Seq<u8>, Seq<u8>>,
    requests_after: Map<Seq<u8>, Seq<u8>>,
    preimages_before: Map<Seq<u8>, Seq<u8>>,
    preimages_after: Map<Seq<u8>, Seq<u8>>,
    request: OfferRequestView,
    preimage: Seq<u8>,
) -> bool {
    &&& sha256(preimage) == request.preimage_hash
    &&& requests_after == requests_before || requests_after == requests_before.insert(
        request_key(request),
        canonical_request(request),
    )
    &&& preimages_after == preimages_before || preimages_after == preimages_before.insert(
        request_key(request),
        preimage,
    )
}

/// Creates an offer: checks the balance where it is known, draws a
/// fresh preimage, stores the request and the preimage, and hands out
/// the request with the text to send to the counterparty.
///
/// A failure of the database may leave the request stored without its
/// preimage, never a table with anything but the new entry added;
/// creating the offer again draws a new preimage.
pub fn create_offer(
    state: &GauloiState,
    db: &mut SwapStorage,
    terms: OfferTerms,
    our_btc_balance: Option<u128>,
) -> (r: Result<(OfferRequest, String), SwapError>)
    ensures
        final(db).offers() == old(db).offers(),
        match r {
            Ok((request, text)) => {
                &&& our_btc_balance matches Some(balance) ==> terms.sold <= balance
                &&& request.version == VERSION
                &&& request.sold == terms.sold
                &&& request.bought == terms.bought
                &&& request.lockup_btc == terms.spec_lockup()
                &&& btc_pubkey_of(state.master_extended@) is Some
                &&& request.seller_pubkey_hash@ == hash160(
                    btc_pubkey_of(state.master_extended@).unwrap(),
                )
                &&& master_secret_of(state.master_extended@) is Some
                &&& eth_address_of(master_secret_of(state.master_extended@).unwrap()) == Some(
                    request.seller_eth_address@,
                )
                &&& text@ == hex_chars(canonical_request(request@))
                &&& final(db).requests() == old(db).requests().insert(
                    request_key(request@),
                    canonical_request(request@),
                )
                &&& final(db).preimages().contains_key(request_key(request@))
                &&& sha256(final(db).preimages()[request_key(request@)])
                    == request.preimage_hash@
                &&& final(db).preimages() == old(db).preimages().insert(
                    request_key(request@),
                    final(db).preimages()[request_key(request@)],
                )
            },
            Err(e) => if our_btc_balance matches Some(balance) && terms.sold > balance {
                &&& e == SwapError::InsufficientFunds
                &&& final(db).requests() == old(db).requests()
                &&& final(db).preimages() == old(db).preimages()
            } else if !state.usable() {
                &&& e == SwapError::Keyring
                &&& final(db).requests() == old(db).requests()
                &&& final(db).preimages() == old(db).preimages()
            } else {
                &&& e == SwapError::Storage
                &&& exists|request: OfferRequestView, preimage: Seq<u8>|
                    offers_terms(request, terms, *state) && #[trigger] partly_stored(
                        old(db).requests(),
                        final(db).requests(),
                        old(db).preimages(),
                        final(db).preimages(),
                        request,
                        preimage,
                    )
            },
        },
{
    let ghost requests_before = db.requests();
    let ghost preimages_before = db.preimages();
    if let Some(balance) = our_btc_balance {
        if check_balance(balance, terms.sold).is_err() {
            return Err(SwapError::InsufficientFunds);
        }
    }
    let seller_pubkey_hash = match state.our_pubkey_hash() {
        Ok(hash) => hash,
        Err(_) => {
            return Err(SwapError::Keyring);
        },
    };
    let seller_eth_address = match state.eth_address() {
        Ok(address) => address,
        Err(_) => {
            return Err(SwapError::Keyring);
        },
    };
    let preimage = GauloiState::preimage();
    let offer = new_request(&terms, seller_pubkey_hash, seller_eth_address, &preimage);
    // Add the pending offer and the preimage to the local storage
    if db.add_pending_offer(offer).is_err() {
        assert(partly_stored(
            requests_before,
            db.requests(),
            preimages_before,
            db.preimages(),
            offer@,
            preimage@,
        ));
        return Err(SwapError::Storage);
    }
    if db.add_preimage(offer, preimage).is_err() {
        assert(partly_stored(
            requests_before,
            db.requests(),
            preimages_before,
            db.preimages(),
            offer@,
            preimage@,
        ));
        return Err(SwapError::Storage);
    }
    let text = offer.to_hex();
    Ok((offer, text))
}

} // verus!
