//! The local identity: one extended private key, from which the Bitcoin
//! key and the Ethereum key are derived.

use vstd::prelude::*;
use crate::bytes::append;
use crate::error::SwapError;
use crate::hashes::{sha256, sha256_of};

verus! {

/// Path of the Bitcoin key below the master key.
pub const BTC_DERIVATION: &'static str = "m/84h/0h/1h/0/0";

/// What is added to the number of a step of a path to harden it.
pub const HARDENED: u32 = 0x8000_0000;

/// The deepest level of a key: the depth is counted in one byte.
pub const MAX_DEPTH: usize = 255;

/// The steps of `BTC_DERIVATION`: 84, 0 and 1 hardened, then 0 and 0.
pub open spec fn btc_path() -> Seq<u32> {
    seq![(HARDENED + 84) as u32, HARDENED, (HARDENED + 1) as u32, 0u32, 0u32]
}

/// Whether a serialized key stands high enough for `steps` more steps
/// below it: its depth, the fifth byte, and the steps stay within
/// `MAX_DEPTH`.
pub open spec fn can_descend(master: Seq<u8>, steps: nat) -> bool {
    master.len() == 78 && master[4] + steps <= MAX_DEPTH
}

/// The Bitcoin network that addresses are made for.
#[derive(Debug, Clone, Copy, PartialEq, Eq, Structural)]
pub enum Network {
    Bitcoin,
    Testnet,
    Signet,
    Regtest,
}

/// A Bitcoin address: the script that pays to it, and its text form.
#[derive(Debug, Clone)]
pub struct Address {
    pub script_pubkey: Vec<u8>,
    pub text: String,
}

/// The keys of the local party.
pub struct GauloiState {
    /// The master key in its 78-byte serialization.
    pub master_extended: [u8; 78],
    pub network: Network,
}

/// The master key that BIP-32 derives from a seed, serialized; `None`
/// where the seed yields no valid key.
pub uninterp spec fn master_key_of(network: Network, seed: Seq<u8>) -> Option<Seq<u8>>;

/// The compressed public key at the end of a path of steps below a
/// serialized master key; `None` where the bytes are no valid key or a
/// step has no key.
pub uninterp spec fn child_pubkey_of(master: Seq<u8>, path: Seq<u32>) -> Option<Seq<u8>>;

/// The compressed public key at `BTC_DERIVATION` below a serialized
/// master key; `None` where the bytes are no valid key, or the key stands
/// too deep for the path.
pub open spec fn btc_pubkey_of(master: Seq<u8>) -> Option<Seq<u8>> {
    if can_descend(master, btc_path().len()) {
        child_pubkey_of(master, btc_path())
    } else {
        None
    }
}

/// The four-byte fingerprint of a serialized master key; `None` where
/// the bytes are no valid key.
pub uninterp spec fn fingerprint_of(master: Seq<u8>) -> Option<Seq<u8>>;

/// RIPEMD-160 of SHA-256 of a byte string.
pub uninterp spec fn hash160(data: Seq<u8>) -> Seq<u8>;

/// The text form of the address of a script pubkey on a network.
pub uninterp spec fn address_text_of(script_pubkey: Seq<u8>, network: Network) -> Option<Seq<char>>;

/// The 32-byte secret scalar inside a serialized master key.
pub uninterp spec fn master_secret_of(master: Seq<u8>) -> Option<Seq<u8>>;

/// The Ethereum account address of a secret scalar.
pub uninterp spec fn eth_address_of(secret: Seq<u8>) -> Option<Seq<u8>>;

/// The script that pays to the witness public key hash of `pubkey`.
pub open spec fn p2wpkh_script(pubkey: Seq<u8>) -> Seq<u8> {
    seq![0x00u8, 0x14u8] + hash160(pubkey)
}

/// The script that pays to the witness script hash of `script`.
pub open spec fn p2wsh_script(script: Seq<u8>) -> Seq<u8> {
    seq![0x00u8, 0x20u8] + sha256(script)
}

/// `ExtendedPrivKey::new_master` followed by `encode`. Trusted: the
/// result depends on the network and the seed alone.
#[verifier::external_body]
fn derive_master(network: Network, seed: &[u8; 32]) -> (master: Option<[u8; 78]>)
    ensures
        match master {
            Some(bytes) => master_key_of(network, seed@) == Some(bytes@),
            None => master_key_of(network, seed@) is None,
        },
{
    let network = match network {
        Network::Bitcoin => bitcoin::Network::Bitcoin,
        Network::Testnet => bitcoin::Network::Testnet,
        Network::Signet => bitcoin::Network::Signet,
        Network::Regtest => bitcoin::Network::Regtest,
    };
    bitcoin::bip32::ExtendedPrivKey::new_master(network, seed).ok().map(|k| k.encode())
}

/// `ExtendedPrivKey::decode`, `derive_priv` along the steps of `path` and
/// `PublicKey::from_private_key`. Trusted: the 33 bytes returned depend
/// on the master key and the path alone. Each step adds one to the depth
/// of the key, which is why the key must stand high enough.
#[verifier::external_body]
fn derive_pubkey(master: &[u8; 78], path: &Vec<u32>) -> (pubkey: Option<[u8; 33]>)
    requires
        can_descend(master@, path@.len()),
    ensures
        match pubkey {
            Some(bytes) => child_pubkey_of(master@, path@) == Some(bytes@),
            None => child_pubkey_of(master@, path@) is None,
        },
{
    let secp = bitcoin::secp256k1::Secp256k1::new();
    let key = bitcoin::bip32::ExtendedPrivKey::decode(master).ok()?;
    let path: Vec<bitcoin::bip32::ChildNumber> = path.iter().map(|n| (*n).into()).collect();
    let child = key.derive_priv(&secp, &path).ok()?;
    Some(bitcoin::PublicKey::from_private_key(&secp, &child.to_priv()).inner.serialize())
}

/// The steps of `BTC_DERIVATION`.
pub fn btc_steps() -> (path: Vec<u32>)
    ensures
        path@ == btc_path(),
{
    let mut path: Vec<u32> = Vec::new();
    path.push(HARDENED + 84);
    path.push(HARDENED);
    path.push(HARDENED + 1);
    path.push(0);
    path.push(0);
    assert(path@ =~= btc_path());
    path
}

/// `ExtendedPrivKey::decode` and `fingerprint`. Trusted: the four bytes
/// depend on the master key alone.
#[verifier::external_body]
fn derive_fingerprint(master: &[u8; 78]) -> (fingerprint: Option<[u8; 4]>)
    ensures
        match fingerprint {
            Some(bytes) => fingerprint_of(master@) == Some(bytes@),
            None => fingerprint_of(master@) is None,
        },
{
    let secp = bitcoin::secp256k1::Secp256k1::new();
    let key = bitcoin::bip32::ExtendedPrivKey::decode(master).ok()?;
    Some(key.fingerprint(&secp).to_bytes())
}

/// `bitcoin::hashes::hash160::Hash::hash`. Trusted: the 20 bytes are the
/// RIPEMD-160 of the SHA-256 of the bytes given.
#[verifier::external_body]
fn pubkey_hash160(pubkey: &[u8; 33]) -> (hash: [u8; 20])
    ensures
        hash@ == hash160(pubkey@),
{
    let hash: bitcoin::hashes::hash160::Hash = bitcoin::hashes::Hash::hash(pubkey);
    bitcoin::hashes::Hash::to_byte_array(hash)
}

/// The script that pays to the witness public key hash of `pubkey`.
pub fn script_p2wpkh(pubkey: &[u8; 33]) -> (script: Vec<u8>)
    ensures
        script@ == p2wpkh_script(pubkey@),
{
    let hash = pubkey_hash160(pubkey);
    witness_program(0x14, hash.as_slice())
}

/// The script that pays to the witness script hash of `script`.
pub fn script_p2wsh(script: &Vec<u8>) -> (script_pubkey: Vec<u8>)
    ensures
        script_pubkey@ == p2wsh_script(script@),
{
    let hash = sha256_of(script.as_slice());
    witness_program(0x20, hash.as_slice())
}

/// A version 0 witness program: the version, the length of the
/// program, and the program.
fn witness_program(length: u8, program: &[u8]) -> (script: Vec<u8>)
    ensures
        script@ == seq![0x00u8, length] + program@,
{
    let mut script: Vec<u8> = Vec::new();
    script.push(0x00);
    script.push(length);
    append(&mut script, program);
    assert(script@ =~= seq![0x00u8, length] + program@);
    script
}

/// `Address::from_script` and its `Display`. Trusted: the text depends
/// on the script and the network alone.
#[verifier::external_body]
fn address_text(script_pubkey: &Vec<u8>, network: Network) -> (text: Option<String>)
    ensures
        match text {
            Some(t) => address_text_of(script_pubkey@, network) == Some(t@),
            None => address_text_of(script_pubkey@, network) is None,
        },
{
    let network = match network {
        Network::Bitcoin => bitcoin::Network::Bitcoin,
        Network::Testnet => bitcoin::Network::Testnet,
        Network::Signet => bitcoin::Network::Signet,
        Network::Regtest => bitcoin::Network::Regtest,
    };
    let script = bitcoin::Script::from_bytes(script_pubkey);
    bitcoin::Address::from_script(script, network).ok().map(|a| a.to_string())
}

/// `ExtendedPrivKey::decode` and `SecretKey::secret_bytes`. Trusted: the
/// bytes are the secret scalar that the serialization holds, which are
/// its last 32 bytes.
#[verifier::external_body]
fn master_secret(master: &[u8; 78]) -> (secret: Option<[u8; 32]>)
    ensures
        match secret {
            Some(bytes) => master_secret_of(master@) == Some(bytes@) && bytes@ == master@.subrange(
                46,
                78,
            ),
            None => master_secret_of(master@) is None,
        },
{
    bitcoin::bip32::ExtendedPrivKey::decode(master).ok().map(|k| k.private_key.secret_bytes())
}

/// `SigningKey::from_slice`, `Wallet::from` and `Signer::address`.
/// Trusted: the address depends on the secret alone.
#[verifier::external_body]
fn wallet_address(secret: &[u8; 32]) -> (address: Option<[u8; 20]>)
    ensures
        match address {
            Some(bytes) => eth_address_of(secret@) == Some(bytes@),
            None => eth_address_of(secret@) is None,
        },
{
    let signer = ethers::core::k256::ecdsa::SigningKey::from_slice(secret).ok()?;
    let wallet = ethers::signers::Wallet::from(signer);
    Some(ethers::signers::Signer::address(&wallet).to_fixed_bytes())
}

/// `RngCore::fill_bytes` on the thread's generator: 32 random bytes.
#[verifier::external_body]
fn random_bytes() -> (bytes: [u8; 32]) {
    let mut bytes = [0u8; 32];
    rand::RngCore::fill_bytes(&mut rand::thread_rng(), &mut bytes);
    bytes
}

impl GauloiState {
    /// Whether the master key yields the identity of the local party on
    /// both chains: the Bitcoin public key and the Ethereum address.
    pub open spec fn usable(&self) -> bool {
        &&& btc_pubkey_of(self.master_extended@) is Some
        &&& master_secret_of(self.master_extended@) matches Some(secret)
        &&& eth_address_of(secret) is Some
    }

    /// A fresh master key for `network`, derived from `seed`.
    pub fn new_master(network: Network, seed: &[u8; 32]) -> (r: Result<GauloiState, SwapError>)
        ensures
            match r {
                Ok(state) => state.network == network && master_key_of(network, seed@) == Some(
                    state.master_extended@,
                ),
                Err(e) => e == SwapError::Keyring && master_key_of(network, seed@) is None,
            },
    {
        match derive_master(network, seed) {
            Some(master_extended) => Ok(GauloiState { master_extended, network }),
            None => Err(SwapError::Keyring),
        }
    }

    /// The derivation path of the Bitcoin key.
    pub fn btc_derivation() -> (path: &'static str)
        ensures
            path == BTC_DERIVATION,
    {
        BTC_DERIVATION
    }

    /// The compressed Bitcoin public key of the local party.
    pub fn btc_address(&self) -> (r: Result<[u8; 33], SwapError>)
        ensures
            match r {
                Ok(pubkey) => btc_pubkey_of(self.master_extended@) == Some(pubkey@),
                Err(e) => e == SwapError::Keyring && btc_pubkey_of(self.master_extended@) is None,
            },
    {
        let path = btc_steps();
        // a key that stands too deep for the path has no key below it
        let depth: usize = self.master_extended[4] as usize;
        if depth + path.len() > MAX_DEPTH {
            return Err(SwapError::Keyring);
        }
        match derive_pubkey(&self.master_extended, &path) {
            Some(pubkey) => Ok(pubkey),
            None => Err(SwapError::Keyring),
        }
    }

    /// The fingerprint of the master key, which names it when signing.
    pub fn fingerprint(&self) -> (r: Result<[u8; 4], SwapError>)
        ensures
            match r {
                Ok(fingerprint) => fingerprint_of(self.master_extended@) == Some(fingerprint@),
                Err(e) => e == SwapError::Keyring && fingerprint_of(self.master_extended@) is None,
            },
    {
        match derive_fingerprint(&self.master_extended) {
            Some(fingerprint) => Ok(fingerprint),
            None => Err(SwapError::Keyring),
        }
    }

    /// The HASH160 of the local Bitcoin public key.
    pub fn our_pubkey_hash(&self) -> (r: Result<[u8; 20], SwapError>)
        ensures
            match r {
                Ok(hash) => btc_pubkey_of(self.master_extended@) is Some && hash@ == hash160(
                    btc_pubkey_of(self.master_extended@).unwrap(),
                ),
                Err(e) => e == SwapError::Keyring && btc_pubkey_of(self.master_extended@) is None,
            },
    {
        match self.btc_address() {
            Ok(pubkey) => Ok(pubkey_hash160(&pubkey)),
            Err(e) => Err(e),
        }
    }

    /// The pay-to-witness-public-key-hash address of the local party.
    pub fn p2wpkh_address(&self) -> (r: Result<Address, SwapError>)
        ensures
            match r {
                Ok(address) => {
                    &&& btc_pubkey_of(self.master_extended@) is Some
                    &&& address.script_pubkey@ == p2wpkh_script(
                        btc_pubkey_of(self.master_extended@).unwrap(),
                    )
                    &&& address_text_of(address.script_pubkey@, self.network) == Some(address.text@)
                },
                Err(e) => {
                    &&& e == SwapError::Keyring
                    &&& btc_pubkey_of(self.master_extended@) matches Some(pubkey)
                        ==> address_text_of(p2wpkh_script(pubkey), self.network) is None
                },
            },
    {
        match self.btc_address() {
            Ok(pubkey) => address_of_script(script_p2wpkh(&pubkey), self.network),
            Err(e) => Err(e),
        }
    }

    /// The pay-to-witness-script-hash address of `script`.
    pub fn p2wsh_address(&self, script: &Vec<u8>) -> (r: Result<Address, SwapError>)
        ensures
            match r {
                Ok(address) => {
                    &&& address.script_pubkey@ == p2wsh_script(script@)
                    &&& address_text_of(address.script_pubkey@, self.network) == Some(address.text@)
                },
                Err(e) => e == SwapError::Keyring && address_text_of(
                    p2wsh_script(script@),
                    self.network,
                ) is None,
            },
    {
        address_of_script(script_p2wsh(script), self.network)
    }

    /// The secret scalar that signs on Ethereum: the master key's own.
    pub fn get_wallet(&self) -> (r: Result<[u8; 32], SwapError>)
        ensures
            match r {
                Ok(secret) => master_secret_of(self.master_extended@) == Some(secret@) && secret@
                    == self.master_extended@.subrange(46, 78),
                Err(e) => e == SwapError::Keyring && master_secret_of(self.master_extended@) is None,
            },
    {
        match master_secret(&self.master_extended) {
            Some(secret) => Ok(secret),
            None => Err(SwapError::Keyring),
        }
    }

    /// The Ethereum address of the local party.
    pub fn eth_address(&self) -> (r: Result<[u8; 20], SwapError>)
        ensures
            match r {
                Ok(address) => {
                    &&& master_secret_of(self.master_extended@) is Some
                    &&& eth_address_of(master_secret_of(self.master_extended@).unwrap()) == Some(
                        address@,
                    )
                },
                Err(e) => {
                    &&& e == SwapError::Keyring
                    &&& master_secret_of(self.master_extended@) matches Some(secret)
                        ==> eth_address_of(secret) is None
                },
            },
    {
        match self.get_wallet() {
            Ok(secret) => match wallet_address(&secret) {
                Some(address) => Ok(address),
                None => Err(SwapError::Keyring),
            },
            Err(e) => Err(e),
        }
    }

    /// A fresh preimage: 32 random bytes.
    pub fn preimage() -> [u8; 32] {
        random_bytes()
    }
}

/// Joins a script with its text form on `network`.
pub fn address_of_script(script_pubkey: Vec<u8>, network: Network) -> (r: Result<Address, SwapError>)
    ensures
        match r {
            Ok(address) => {
                &&& address.script_pubkey@ == script_pubkey@
                &&& address_text_of(script_pubkey@, network) == Some(address.text@)
            },
            Err(e) => e == SwapError::Keyring && address_text_of(script_pubkey@, network) is None,
        },
{
    match address_text(&script_pubkey, network) {
        Some(text) => Ok(Address { script_pubkey, text }),
        None => Err(SwapError::Keyring),
    }
}

} // verus!
