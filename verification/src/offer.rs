//! The records that two parties exchange to agree on a swap, and the
//! Bitcoin script that locks the seller's coins.

use vstd::prelude::*;
use crate::bytes::same_bytes;
use crate::script::{
    builder_into_bytes, builder_new, builder_push_int, builder_push_opcode, builder_push_slice,
    push_data, push_number, OP_CHECKSIG, OP_CSV, OP_DROP, OP_DUP, OP_ELSE, OP_ENDIF, OP_EQUALVERIFY,
    OP_HASH160, OP_IF, OP_SHA256,
};

verus! {

/// Version of the request and response agreement protocol.
pub const VERSION: u8 = 0;

/// What the seller of BTC proposes.
#[derive(Debug, Clone, Copy)]
pub struct OfferRequest {
    /// Version of the agreement protocol.
    pub version: u8,
    /// Amount of BTC sold, in satoshis.
    pub sold: u128,
    /// Amount of ETH bought, in wei.
    pub bought: u128,
    /// Number of blocks the BTC stays locked in the script.
    pub lockup_btc: u8,
    /// HASH160 of the seller's Bitcoin public key, for the refund path.
    pub seller_pubkey_hash: [u8; 20],
    /// Ethereum address of the seller.
    pub seller_eth_address: [u8; 20],
    /// SHA-256 of the preimage that only the seller knows.
    pub preimage_hash: [u8; 32],
}

/// What the buyer of BTC answers.
#[derive(Debug, Clone, Copy)]
pub struct OfferResponse {
    /// Version of the agreement protocol.
    pub version: u8,
    /// Amount of BTC sold, in satoshis.
    pub sold: u128,
    /// Amount of ETH bought, in wei.
    pub bought: u128,
    /// Number of blocks the ETH stays locked.
    pub lockup_eth: u8,
    /// HASH160 of the buyer's Bitcoin public key.
    pub buyer_pubkey_hash: [u8; 20],
    /// Ethereum address of the buyer.
    pub buyer_eth_address: [u8; 20],
    /// SHA-256 of the canonical bytes of the request answered.
    pub request_hash: [u8; 32],
}

/// A request joined with its response.
#[derive(Debug, Clone)]
pub struct Offer {
    /// Version of the agreement protocol.
    pub version: u8,
    /// Amount of BTC sold, in satoshis.
    pub sold: u128,
    /// Amount of ETH bought, in wei.
    pub bought: u128,
    /// Number of blocks the ETH stays locked.
    pub lockup_eth: u8,
    /// Number of blocks the BTC stays locked.
    pub lockup_btc: u8,
    /// HASH160 of the seller's Bitcoin public key.
    pub seller_pubkey_hash: [u8; 20],
    /// HASH160 of the buyer's Bitcoin public key.
    pub buyer_pubkey_hash: [u8; 20],
    /// Ethereum address of the seller.
    pub seller_eth_address: [u8; 20],
    /// Ethereum address of the buyer.
    pub buyer_eth_address: [u8; 20],
    /// Identifier of the Ethereum-side swap, once there is one.
    pub swap_id_hex: Option<String>,
    /// SHA-256 of the preimage.
    pub preimage_hash: [u8; 32],
    /// SHA-256 of the canonical bytes of the request; the local key of the swap.
    pub request_hash: [u8; 32],
}

/// Where the BTC of a swap was locked.
#[derive(Debug, Clone)]
pub struct BtcCommitment {
    /// Transaction ID of the payment into the locking script.
    pub tx_id: String,
}

/// Where the ETH of a swap was locked.
#[derive(Debug, Clone)]
pub struct EthCommitment {
    /// The identifier of the swap on the contract, a 256-bit number in
    /// hexadecimal.
    pub swap_id_hex: String,
}

/// An `OfferRequest` as a mathematical value.
pub struct OfferRequestView {
    pub version: u8,
    pub sold: u128,
    pub bought: u128,
    pub lockup_btc: u8,
    pub seller_pubkey_hash: Seq<u8>,
    pub seller_eth_address: Seq<u8>,
    pub preimage_hash: Seq<u8>,
}

/// An `OfferResponse` as a mathematical value.
pub struct OfferResponseView {
    pub version: u8,
    pub sold: u128,
    pub bought: u128,
    pub lockup_eth: u8,
    pub buyer_pubkey_hash: Seq<u8>,
    pub buyer_eth_address: Seq<u8>,
    pub request_hash: Seq<u8>,
}

/// An `Offer` as a mathematical value.
pub struct OfferView {
    pub version: u8,
    pub sold: u128,
    pub bought: u128,
    pub lockup_eth: u8,
    pub lockup_btc: u8,
    pub seller_pubkey_hash: Seq<u8>,
    pub buyer_pubkey_hash: Seq<u8>,
    pub seller_eth_address: Seq<u8>,
    pub buyer_eth_address: Seq<u8>,
    pub swap_id_hex: Option<Seq<char>>,
    pub preimage_hash: Seq<u8>,
    pub request_hash: Seq<u8>,
}

impl OfferRequestView {
    /// The hashes and the address have their lengths.
    pub open spec fn wf(self) -> bool {
        &&& self.seller_pubkey_hash.len() == 20
        &&& self.seller_eth_address.len() == 20
        &&& self.preimage_hash.len() == 32
    }
}

impl OfferResponseView {
    /// The hashes and the address have their lengths.
    pub open spec fn wf(self) -> bool {
        &&& self.buyer_pubkey_hash.len() == 20
        &&& self.buyer_eth_address.len() == 20
        &&& self.request_hash.len() == 32
    }
}

impl OfferView {
    /// The hashes and the addresses have their lengths, and the swap
    /// identifier is no longer than a length can say.
    pub open spec fn wf(self) -> bool {
        &&& self.swap_id_hex is Some ==> vstd::utf8::encode_utf8(self.swap_id_hex.unwrap()).len()
            <= u64::MAX
        &&& self.seller_pubkey_hash.len() == 20
        &&& self.buyer_pubkey_hash.len() == 20
        &&& self.seller_eth_address.len() == 20
        &&& self.buyer_eth_address.len() == 20
        &&& self.preimage_hash.len() == 32
        &&& self.request_hash.len() == 32
    }
}

impl View for OfferRequest {
    type V = OfferRequestView;

    open spec fn view(&self) -> OfferRequestView {
        OfferRequestView {
            version: self.version,
            sold: self.sold,
            bought: self.bought,
            lockup_btc: self.lockup_btc,
            seller_pubkey_hash: self.seller_pubkey_hash@,
            seller_eth_address: self.seller_eth_address@,
            preimage_hash: self.preimage_hash@,
        }
    }
}

impl View for OfferResponse {
    type V = OfferResponseView;

    open spec fn view(&self) -> OfferResponseView {
        OfferResponseView {
            version: self.version,
            sold: self.sold,
            bought: self.bought,
            lockup_eth: self.lockup_eth,
            buyer_pubkey_hash: self.buyer_pubkey_hash@,
            buyer_eth_address: self.buyer_eth_address@,
            request_hash: self.request_hash@,
        }
    }
}

/// The characters of a text that may be absent.
pub open spec fn optional_chars(text: Option<String>) -> Option<Seq<char>> {
    match text {
        Some(t) => Some(t@),
        None => None,
    }
}

impl View for Offer {
    type V = OfferView;

    open spec fn view(&self) -> OfferView {
        OfferView {
            version: self.version,
            sold: self.sold,
            bought: self.bought,
            lockup_eth: self.lockup_eth,
            lockup_btc: self.lockup_btc,
            seller_pubkey_hash: self.seller_pubkey_hash@,
            buyer_pubkey_hash: self.buyer_pubkey_hash@,
            seller_eth_address: self.seller_eth_address@,
            buyer_eth_address: self.buyer_eth_address@,
            swap_id_hex: optional_chars(self.swap_id_hex),
            preimage_hash: self.preimage_hash@,
            request_hash: self.request_hash@,
        }
    }
}

/// The script that locks the seller's coins: the buyer spends with the
/// preimage, the seller after `lockup_btc` blocks.
pub open spec fn spec_htlc_script(
    preimage_hash: Seq<u8>,
    buyer_pubkey_hash: Seq<u8>,
    lockup_btc: u8,
    seller_pubkey_hash: Seq<u8>,
) -> Seq<u8> {
    seq![OP_IF, OP_SHA256] + push_data(preimage_hash) + seq![OP_EQUALVERIFY, OP_DUP, OP_HASH160]
        + push_data(buyer_pubkey_hash) + seq![OP_ELSE] + push_number(lockup_btc) + seq![
        OP_CSV,
        OP_DROP,
        OP_DUP,
        OP_HASH160,
    ] + push_data(seller_pubkey_hash) + seq![OP_ENDIF, OP_EQUALVERIFY, OP_CHECKSIG]
}

/// The locking script is made of the preimage hash, the two pubkey
/// hashes and the BTC lockup, and of nothing else: two offers that agree
/// on the four have the same script, byte for byte.
pub proof fn lemma_htlc_script_of_four_fields(a: Offer, b: Offer)
    requires
        a.preimage_hash@ == b.preimage_hash@,
        a.buyer_pubkey_hash@ == b.buyer_pubkey_hash@,
        a.lockup_btc == b.lockup_btc,
        a.seller_pubkey_hash@ == b.seller_pubkey_hash@,
    ensures
        a.spec_htlc_script() == b.spec_htlc_script(),
{
}

impl Offer {
    /// The locking script of this offer.
    pub open spec fn spec_htlc_script(&self) -> Seq<u8> {
        spec_htlc_script(
            self.preimage_hash@,
            self.buyer_pubkey_hash@,
            self.lockup_btc,
            self.seller_pubkey_hash@,
        )
    }

    /// Whether the given pubkey hash or Ethereum address is the seller's.
    pub open spec fn spec_is_user_seller(&self, user: [u8; 20]) -> bool {
        self.seller_pubkey_hash@ == user@ || self.seller_eth_address@ == user@
    }

    /// Whether the given pubkey hash or Ethereum address is the buyer's.
    pub open spec fn spec_is_user_buyer(&self, user: [u8; 20]) -> bool {
        self.buyer_pubkey_hash@ == user@ || self.buyer_eth_address@ == user@
    }

    /// Whether the given pubkey hash or Ethereum address is the seller's.
    pub fn is_user_seller(&self, user_pubkey_hash_or_eth_address: [u8; 20]) -> (r: bool)
        ensures
            r == self.spec_is_user_seller(user_pubkey_hash_or_eth_address),
    {
        same_bytes(
            self.seller_pubkey_hash.as_slice(),
            user_pubkey_hash_or_eth_address.as_slice(),
        ) || same_bytes(
            self.seller_eth_address.as_slice(),
            user_pubkey_hash_or_eth_address.as_slice(),
        )
    }

    /// Whether the given pubkey hash or Ethereum address is the buyer's.
    pub fn is_user_buyer(&self, user_pubkey_hash_or_eth_address: [u8; 20]) -> (r: bool)
        ensures
            r == self.spec_is_user_buyer(user_pubkey_hash_or_eth_address),
    {
        same_bytes(
            self.buyer_pubkey_hash.as_slice(),
            user_pubkey_hash_or_eth_address.as_slice(),
        ) || same_bytes(
            self.buyer_eth_address.as_slice(),
            user_pubkey_hash_or_eth_address.as_slice(),
        )
    }

    /// Assembles the locking script of this offer.
    pub fn htlc_script(&self) -> (script: Vec<u8>)
        ensures
            script@ == self.spec_htlc_script(),
    {
        let b = builder_new();
        // claim path
        let b = builder_push_opcode(b, OP_IF);
        let b = builder_push_opcode(b, OP_SHA256);
        let b = builder_push_slice(b, self.preimage_hash.as_slice());
        let b = builder_push_opcode(b, OP_EQUALVERIFY);
        let b = builder_push_opcode(b, OP_DUP);
        let b = builder_push_opcode(b, OP_HASH160);
        let b = builder_push_slice(b, self.buyer_pubkey_hash.as_slice());
        // else, timeout path
        let b = builder_push_opcode(b, OP_ELSE);
        let b = builder_push_int(b, self.lockup_btc);
        let b = builder_push_opcode(b, OP_CSV);
        let b = builder_push_opcode(b, OP_DROP);
        let b = builder_push_opcode(b, OP_DUP);
        let b = builder_push_opcode(b, OP_HASH160);
        let b = builder_push_slice(b, self.seller_pubkey_hash.as_slice());
        let b = builder_push_opcode(b, OP_ENDIF);
        // end if/else
        let b = builder_push_opcode(b, OP_EQUALVERIFY);
        let b = builder_push_opcode(b, OP_CHECKSIG);
        let script = builder_into_bytes(b);
        assert(script@ =~= spec_htlc_script(
            self.preimage_hash@,
            self.buyer_pubkey_hash@,
            self.lockup_btc,
            self.seller_pubkey_hash@,
        ));
        script
    }
}

} // verus!
