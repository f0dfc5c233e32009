//! Driving a completed offer through the four stages of a swap.
//!
//! The engine is a state machine. It is handed what the last action
//! brought and answers with the next action; whoever runs it performs
//! the action on the chains or on the store and comes back with the
//! outcome. Each stage first looks whether its effect is already on
//! chain, so a swap can be taken up again from any point.

use vstd::prelude::*;
use crate::error::SwapError;
use crate::eth_api::{zero32, Swap, U256};
use crate::bitcoin_api::{
    selected, signed_claim, signed_funding, signed_refund, total_value, BitcoinApi,
    RelevantTxInfo,
};
use crate::offer::Offer;
use crate::state::{address_text_of, btc_pubkey_of, p2wpkh_script, p2wsh_script, Address, GauloiState};
use crate::swaps::{listed_offers, SwapStorage};
use crate::transaction::Transaction;
use crate::bytes::same_bytes;

verus! {

/// How often a stage looks at its chain before it gives up.
pub const MAX_ATTEMPTS: u8 = 10;

/// Seconds between two looks at a chain.
pub const POLL_SECONDS: u64 = 10;

/// The miner's fee of the funding and the claim transaction, in satoshis.
pub const MINER_FEE: u64 = 1200;

/// Execute a swap by id.
#[derive(Debug, Clone, Copy)]
pub struct ExecuteArgs {
    pub swap_id: usize,
}

/// The four stages of a swap, in their order.
#[derive(Debug, Clone, Copy, PartialEq, Eq, Structural)]
pub enum Stage {
    /// The seller locks the BTC.
    BtcCommit,
    /// The buyer locks the ETH.
    EthCommit,
    /// The seller claims the ETH and so reveals the preimage.
    EthClaim,
    /// The buyer claims the BTC with the preimage.
    BtcClaim,
}

/// What a stage is waiting for.
#[derive(Debug, Clone, Copy, PartialEq, Eq, Structural)]
pub enum Phase {
    /// What the chain of the stage shows.
    Observing,
    /// The preimage from the local store, to claim the swap `swap_id`.
    LoadingPreimage { swap_id: U256 },
    /// The outcome of the transaction of the stage.
    Acting,
}

/// Where the engine stands.
#[derive(Debug, Clone, Copy, PartialEq, Eq, Structural)]
pub enum SwapState {
    /// Nothing was asked for yet.
    Ready,
    /// In `stage`, having looked at its chain `attempts` times.
    Running { stage: Stage, phase: Phase, attempts: u8 },
    /// The swap is through, as far as the local party goes.
    Finished,
    /// The engine gave up.
    Failed(SwapError),
}

/// What the last action brought.
#[derive(Debug, Clone, Copy)]
pub enum Event {
    /// Nothing: the engine is to begin, or to go on.
    Begin,
    /// `ObserveHtlc`: the total of the unspent outputs at the address of
    /// the locking script.
    HtlcBalance(u128),
    /// `ObserveSwap`: the contract's record for the preimage hash.
    EthSwap(Swap),
    /// `LoadPreimage`: what the store holds.
    StoredPreimage(Option<[u8; 32]>),
    /// The transaction asked for was sent.
    Submitted,
    /// The action could not be performed for now.
    Unavailable,
    /// The action was refused for good.
    Refused(SwapError),
}

/// What is to be done next.
#[derive(Debug, Clone, Copy)]
pub enum Action {
    /// After `delay_seconds`, sum the unspent outputs at the address of
    /// the locking script.
    ObserveHtlc { delay_seconds: u64 },
    /// Select unspent outputs of the seller for `needed` satoshis, and
    /// send the funding transaction that pays `value` into the script.
    FundHtlc { value: u64, needed: u128, miner_fee: u64 },
    /// After `delay_seconds`, ask the contract for the swap of the hash.
    ObserveSwap { preimage_hash: [u8; 32], delay_seconds: u64 },
    /// Create the swap on the contract, locking `value` wei for the
    /// seller for `timeout` blocks.
    CommitEth { seller: [u8; 20], value: u128, preimage_hash: [u8; 32], timeout: u8 },
    /// Look up the preimage of the request in the store.
    LoadPreimage { request_hash: [u8; 32] },
    /// Claim the swap on the contract with the preimage.
    ClaimEth { swap_id: U256, preimage: [u8; 32] },
    /// Send the transaction that claims every unspent output of the
    /// locking script with the preimage.
    ClaimBtc { preimage: [u8; 32], miner_fee: u64 },
    /// Nothing is left to do.
    Finish,
    /// Report the error.
    Fail(SwapError),
}

/// The look at the chain that `stage` begins with.
pub open spec fn observation(offer: Offer, stage: Stage, delay_seconds: u64) -> Action {
    match stage {
        Stage::BtcCommit => Action::ObserveHtlc { delay_seconds },
        _ => Action::ObserveSwap { preimage_hash: offer.preimage_hash, delay_seconds },
    }
}

/// Entering `stage`: its first look at the chain, at once.
pub open spec fn entering(offer: Offer, stage: Stage) -> (SwapState, Action) {
    (
        SwapState::Running { stage, phase: Phase::Observing, attempts: 1 },
        observation(offer, stage, 0),
    )
}

/// Giving up with `error`.
pub open spec fn failing(error: SwapError) -> (SwapState, Action) {
    (SwapState::Failed(error), Action::Fail(error))
}

/// Looking again later, unless the stage has looked often enough.
pub open spec fn polling(offer: Offer, stage: Stage, attempts: u8) -> (SwapState, Action) {
    if attempts >= MAX_ATTEMPTS {
        failing(SwapError::ChainBackoff)
    } else {
        (
            SwapState::Running { stage, phase: Phase::Observing, attempts: (attempts + 1) as u8 },
            observation(offer, stage, POLL_SECONDS),
        )
    }
}

/// Stage 1, once the balance of the locking script is known: the
/// seller funds what is missing; with the full amount locked the swap
/// moves on; anyone else waits.
pub open spec fn btc_commitment(offer: Offer, is_seller: bool, attempts: u8, htlc_balance: u128) -> (
    SwapState,
    Action,
) {
    if is_seller && htlc_balance < offer.sold {
        if offer.sold - htlc_balance + MINER_FEE > u64::MAX {
            failing(SwapError::ValueOutOfRange)
        } else {
            (
                SwapState::Running { stage: Stage::BtcCommit, phase: Phase::Acting, attempts },
                Action::FundHtlc {
                    value: (offer.sold - htlc_balance) as u64,
                    needed: (offer.sold - htlc_balance + MINER_FEE) as u128,
                    miner_fee: MINER_FEE,
                },
            )
        }
    } else if htlc_balance >= offer.sold {
        entering(offer, Stage::EthCommit)
    } else {
        polling(offer, Stage::BtcCommit, attempts)
    }
}

/// Stage 2, once the contract's record is known: with the amount
/// bought locked the swap moves on; a swap under the preimage hash
/// with another amount is fatal; else the buyer locks the amount, and
/// anyone else waits.
pub open spec fn eth_commitment(offer: Offer, is_buyer: bool, attempts: u8, swap: Swap) -> (
    SwapState,
    Action,
) {
    if swap.value.value() == offer.bought {
        entering(offer, Stage::EthClaim)
    } else if swap.preimage_hash@ == offer.preimage_hash@ {
        failing(SwapError::MismatchedCommitment)
    } else if is_buyer {
        (
            SwapState::Running { stage: Stage::EthCommit, phase: Phase::Acting, attempts },
            Action::CommitEth {
                seller: offer.seller_eth_address,
                value: offer.bought,
                preimage_hash: offer.preimage_hash,
                timeout: offer.lockup_eth,
            },
        )
    } else {
        polling(offer, Stage::EthCommit, attempts)
    }
}

/// What follows stage 3: the buyer claims the BTC; for anyone else the
/// swap is through.
pub open spec fn after_eth_claim(offer: Offer, is_buyer: bool) -> (SwapState, Action) {
    if is_buyer {
        entering(offer, Stage::BtcClaim)
    } else {
        (SwapState::Finished, Action::Finish)
    }
}

/// Stage 3, once the contract's record is known: with the preimage
/// revealed the swap moves on; else the seller fetches the preimage to
/// claim with, and anyone else waits.
pub open spec fn eth_claim(
    offer: Offer,
    is_seller: bool,
    is_buyer: bool,
    attempts: u8,
    swap: Swap,
) -> (SwapState, Action) {
    if swap.preimage@ != zero32() {
        after_eth_claim(offer, is_buyer)
    } else if is_seller {
        (
            SwapState::Running {
                stage: Stage::EthClaim,
                phase: Phase::LoadingPreimage { swap_id: swap.id },
                attempts,
            },
            Action::LoadPreimage { request_hash: offer.request_hash },
        )
    } else {
        polling(offer, Stage::EthClaim, attempts)
    }
}

/// Stage 3, once the store has answered: the seller claims with the
/// preimage, and cannot go on without it.
pub open spec fn eth_claim_with(attempts: u8, swap_id: U256, stored: Option<[u8; 32]>) -> (
    SwapState,
    Action,
) {
    match stored {
        Some(preimage) => (
            SwapState::Running { stage: Stage::EthClaim, phase: Phase::Acting, attempts },
            Action::ClaimEth { swap_id, preimage },
        ),
        None => failing(SwapError::MissingPreimage),
    }
}

/// Stage 4, once the contract's record is known: the buyer claims the
/// BTC with the preimage revealed, and cannot before it is.
pub open spec fn btc_claim(offer: Offer, is_buyer: bool, attempts: u8, swap: Swap) -> (
    SwapState,
    Action,
) {
    if swap.preimage@ == zero32() {
        failing(SwapError::PreimageNotRevealed)
    } else if is_buyer {
        (
            SwapState::Running { stage: Stage::BtcClaim, phase: Phase::Acting, attempts },
            Action::ClaimBtc { preimage: swap.preimage, miner_fee: MINER_FEE },
        )
    } else {
        polling(offer, Stage::BtcClaim, attempts)
    }
}

/// The transition of the engine: the state and the action that follow
/// from a state and from what the last action brought. An event that
/// does not answer the action awaited counts as a look that showed
/// nothing.
pub open spec fn transition(
    offer: Offer,
    is_seller: bool,
    is_buyer: bool,
    state: SwapState,
    event: Event,
) -> (SwapState, Action) {
    match state {
        SwapState::Ready => entering(offer, Stage::BtcCommit),
        SwapState::Finished => (SwapState::Finished, Action::Finish),
        SwapState::Failed(error) => failing(error),
        SwapState::Running { stage, phase, attempts } => match (stage, phase, event) {
            (_, _, Event::Refused(error)) => failing(error),
            (Stage::BtcCommit, Phase::Observing, Event::HtlcBalance(balance)) => btc_commitment(
                offer,
                is_seller,
                attempts,
                balance,
            ),
            (Stage::BtcCommit, Phase::Acting, Event::Submitted) => entering(
                offer,
                Stage::EthCommit,
            ),
            (Stage::EthCommit, Phase::Observing, Event::EthSwap(swap)) => eth_commitment(
                offer,
                is_buyer,
                attempts,
                swap,
            ),
            (Stage::EthCommit, Phase::Acting, Event::Submitted) => entering(offer, Stage::EthClaim),
            (Stage::EthClaim, Phase::Observing, Event::EthSwap(swap)) => eth_claim(
                offer,
                is_seller,
                is_buyer,
                attempts,
                swap,
            ),
            (
                Stage::EthClaim,
                Phase::LoadingPreimage { swap_id },
                Event::StoredPreimage(stored),
            ) => eth_claim_with(attempts, swap_id, stored),
            (Stage::EthClaim, Phase::Acting, Event::Submitted) => after_eth_claim(offer, is_buyer),
            (Stage::BtcClaim, Phase::Observing, Event::EthSwap(swap)) => btc_claim(
                offer,
                is_buyer,
                attempts,
                swap,
            ),
            (Stage::BtcClaim, Phase::Acting, Event::Submitted) => (
                SwapState::Finished,
                Action::Finish,
            ),
            _ => polling(offer, stage, attempts),
        },
    }
}

/// The place of a state in the order of a swap.
pub open spec fn rank(state: SwapState) -> nat {
    match state {
        SwapState::Ready => 0,
        SwapState::Running { stage: Stage::BtcCommit, .. } => 1,
        SwapState::Running { stage: Stage::EthCommit, .. } => 2,
        SwapState::Running { stage: Stage::EthClaim, .. } => 3,
        SwapState::Running { stage: Stage::BtcClaim, .. } => 4,
        SwapState::Finished => 5,
        SwapState::Failed(_) => 5,
    }
}

/// A running state has looked at its chain at least once and no more
/// often than allowed.
pub open spec fn within_attempts(state: SwapState) -> bool {
    state matches SwapState::Running { attempts, .. } ==> 1 <= attempts <= MAX_ATTEMPTS
}

/// Whether the action changes a chain.
pub open spec fn touches_chain(action: Action) -> bool {
    action is FundHtlc || action is CommitEth || action is ClaimEth || action is ClaimBtc
}

/// The stages are gone through in their order: no transition leads
/// back to an earlier stage, and none leaves a state that is final.
pub proof fn lemma_stages_in_order(
    offer: Offer,
    is_seller: bool,
    is_buyer: bool,
    state: SwapState,
    event: Event,
)
    ensures
        rank(state) <= rank(transition(offer, is_seller, is_buyer, state, event).0),
        state is Finished ==> transition(offer, is_seller, is_buyer, state, event).0 is Finished,
        state is Failed ==> transition(offer, is_seller, is_buyer, state, event).0 == state,
{
}

/// No stage looks at its chain more than `MAX_ATTEMPTS` times.
pub proof fn lemma_attempts_bounded(
    offer: Offer,
    is_seller: bool,
    is_buyer: bool,
    state: SwapState,
    event: Event,
)
    requires
        within_attempts(state),
    ensures
        within_attempts(transition(offer, is_seller, is_buyer, state, event).0),
{
}

/// The BTC is funded only by the seller, only on the sight of a balance
/// short of the amount sold, and only for what is missing. On the sight
/// of the full amount the engine moves on to the ETH commitment and
/// funds nothing.
pub proof fn lemma_funding_only_what_is_missing(
    offer: Offer,
    is_seller: bool,
    is_buyer: bool,
    state: SwapState,
    event: Event,
)
    ensures
        transition(offer, is_seller, is_buyer, state, event).1 matches Action::FundHtlc {
            value,
            needed,
            miner_fee,
        } ==> {
            &&& is_seller
            &&& state matches SwapState::Running {
                stage: Stage::BtcCommit,
                phase: Phase::Observing,
                ..
            }
            &&& event matches Event::HtlcBalance(balance)
            &&& balance < offer.sold
            &&& balance + value == offer.sold
            &&& needed == value + miner_fee
        },
        ({
            &&& state matches SwapState::Running {
                stage: Stage::BtcCommit,
                phase: Phase::Observing,
                ..
            }
            &&& event matches Event::HtlcBalance(balance)
            &&& balance >= offer.sold
        }) ==> transition(offer, is_seller, is_buyer, state, event) == entering(
            offer,
            Stage::EthCommit,
        ),
{
}

/// Each party moves only its own coins: the ETH is locked by the buyer
/// alone, the preimage is fetched by the seller alone, and the BTC is
/// claimed by the buyer alone, with a preimage that the contract showed
/// and that is not zero.
pub proof fn lemma_each_party_its_part(
    offer: Offer,
    is_seller: bool,
    is_buyer: bool,
    state: SwapState,
    event: Event,
)
    ensures
        transition(offer, is_seller, is_buyer, state, event).1 is CommitEth ==> is_buyer,
        transition(offer, is_seller, is_buyer, state, event).1 is LoadPreimage ==> is_seller,
        transition(offer, is_seller, is_buyer, state, event).1 matches Action::ClaimBtc {
            preimage,
            ..
        } ==> {
            &&& is_buyer
            &&& preimage@ != zero32()
            &&& event matches Event::EthSwap(swap)
            &&& swap.preimage == preimage
        },
        transition(offer, is_seller, is_buyer, state, event).1 matches Action::ClaimEth {
            preimage,
            ..
        } ==> {
            &&& event matches Event::StoredPreimage(Some(stored))
            &&& stored == preimage
        },
{
}

/// A seller whose store lacks the preimage fails with `MissingPreimage`,
/// and failing touches no chain.
pub proof fn lemma_missing_preimage_is_fatal(
    offer: Offer,
    is_seller: bool,
    is_buyer: bool,
    attempts: u8,
    swap_id: U256,
)
    ensures
        transition(
            offer,
            is_seller,
            is_buyer,
            SwapState::Running {
                stage: Stage::EthClaim,
                phase: Phase::LoadingPreimage { swap_id },
                attempts,
            },
            Event::StoredPreimage(None),
        ) == failing(SwapError::MissingPreimage),
        !touches_chain(failing(SwapError::MissingPreimage).1),
{
}

/// An error is reported only together with the state that holds it.
pub proof fn lemma_failure_is_recorded(
    offer: Offer,
    is_seller: bool,
    is_buyer: bool,
    state: SwapState,
    event: Event,
)
    ensures
        transition(offer, is_seller, is_buyer, state, event).1 matches Action::Fail(error)
            ==> transition(offer, is_seller, is_buyer, state, event).0 == SwapState::Failed(error),
        transition(offer, is_seller, is_buyer, state, event).0 is Finished <==> transition(
            offer,
            is_seller,
            is_buyer,
            state,
            event,
        ).1 is Finish,
{
}

/// Entering `stage`.
pub fn enter(offer: &Offer, stage: Stage) -> (r: (SwapState, Action))
    ensures
        r == entering(*offer, stage),
{
    (SwapState::Running { stage, phase: Phase::Observing, attempts: 1 }, observe(offer, stage, 0))
}

/// The look at the chain of `stage`.
pub fn observe(offer: &Offer, stage: Stage, delay_seconds: u64) -> (r: Action)
    ensures
        r == observation(*offer, stage, delay_seconds),
{
    match stage {
        Stage::BtcCommit => Action::ObserveHtlc { delay_seconds },
        _ => Action::ObserveSwap { preimage_hash: offer.preimage_hash, delay_seconds },
    }
}

/// Giving up with `error`.
pub fn fail(error: SwapError) -> (r: (SwapState, Action))
    ensures
        r == failing(error),
{
    (SwapState::Failed(error), Action::Fail(error))
}

/// Looking again later, unless the stage has looked often enough.
pub fn poll(offer: &Offer, stage: Stage, attempts: u8) -> (r: (SwapState, Action))
    ensures
        r == polling(*offer, stage, attempts),
{
    if attempts >= MAX_ATTEMPTS {
        fail(SwapError::ChainBackoff)
    } else {
        (
            SwapState::Running { stage, phase: Phase::Observing, attempts: attempts + 1 },
            observe(offer, stage, POLL_SECONDS),
        )
    }
}

/// Stage 1, once the balance of the locking script is known.
pub fn await_or_start_btc_commitment(
    offer: &Offer,
    is_seller: bool,
    attempts: u8,
    htlc_balance: u128,
) -> (r: (SwapState, Action))
    ensures
        r == btc_commitment(*offer, is_seller, attempts, htlc_balance),
{
    if is_seller && htlc_balance < offer.sold {
        let remainder: u128 = offer.sold - htlc_balance;
        // plus miner fee
        if remainder > (u64::MAX - MINER_FEE) as u128 {
            fail(SwapError::ValueOutOfRange)
        } else {
            (
                SwapState::Running { stage: Stage::BtcCommit, phase: Phase::Acting, attempts },
                Action::FundHtlc {
                    value: remainder as u64,
                    needed: remainder + MINER_FEE as u128,
                    miner_fee: MINER_FEE,
                },
            )
        }
    } else if htlc_balance >= offer.sold {
        enter(offer, Stage::EthCommit)
    } else {
        poll(offer, Stage::BtcCommit, attempts)
    }
}

/// Stage 2, once the contract's record is known.
pub fn await_or_start_eth_commitment(offer: &Offer, is_buyer: bool, attempts: u8, swap: &Swap) -> (r:
    (SwapState, Action))
    ensures
        r == eth_commitment(*offer, is_buyer, attempts, *swap),
{
    if swap.value.equals_u128(offer.bought) {
        enter(offer, Stage::EthClaim)
    } else if same_bytes(swap.preimage_hash.as_slice(), offer.preimage_hash.as_slice()) {
        fail(SwapError::MismatchedCommitment)
    } else if is_buyer {
        // we have to commit
        (
            SwapState::Running { stage: Stage::EthCommit, phase: Phase::Acting, attempts },
            Action::CommitEth {
                seller: offer.seller_eth_address,
                value: offer.bought,
                preimage_hash: offer.preimage_hash,
                timeout: offer.lockup_eth,
            },
        )
    } else {
        poll(offer, Stage::EthCommit, attempts)
    }
}

/// What follows stage 3.
pub fn finish_eth_claim(offer: &Offer, is_buyer: bool) -> (r: (SwapState, Action))
    ensures
        r == after_eth_claim(*offer, is_buyer),
{
    if is_buyer {
        enter(offer, Stage::BtcClaim)
    } else {
        (SwapState::Finished, Action::Finish)
    }
}

/// Stage 3, once the contract's record is known.
pub fn await_or_claim_eth_commitment(
    offer: &Offer,
    is_seller: bool,
    is_buyer: bool,
    attempts: u8,
    swap: &Swap,
) -> (r: (SwapState, Action))
    ensures
        r == eth_claim(*offer, is_seller, is_buyer, attempts, *swap),
{
    // the preimage is 32 bytes of 0 while the swap is not claimed
    if swap.is_claimed() {
        finish_eth_claim(offer, is_buyer)
    } else if is_seller {
        (
            SwapState::Running {
                stage: Stage::EthClaim,
                phase: Phase::LoadingPreimage { swap_id: swap.id },
                attempts,
            },
            Action::LoadPreimage { request_hash: offer.request_hash },
        )
    } else {
        poll(offer, Stage::EthClaim, attempts)
    }
}

/// Stage 3, once the store has answered.
pub fn claim_eth_with(attempts: u8, swap_id: U256, stored: Option<[u8; 32]>) -> (r: (
    SwapState,
    Action,
))
    ensures
        r == eth_claim_with(attempts, swap_id, stored),
{
    match stored {
        Some(preimage) => (
            SwapState::Running { stage: Stage::EthClaim, phase: Phase::Acting, attempts },
            Action::ClaimEth { swap_id, preimage },
        ),
        None => fail(SwapError::MissingPreimage),
    }
}

/// Stage 4, once the contract's record is known.
pub fn claim_btc_commitment(offer: &Offer, is_buyer: bool, attempts: u8, swap: &Swap) -> (r: (
    SwapState,
    Action,
))
    ensures
        r == btc_claim(*offer, is_buyer, attempts, *swap),
{
    if !swap.is_claimed() {
        // expect this is already here
        fail(SwapError::PreimageNotRevealed)
    } else if is_buyer {
        (
            SwapState::Running { stage: Stage::BtcClaim, phase: Phase::Acting, attempts },
            Action::ClaimBtc { preimage: swap.preimage, miner_fee: MINER_FEE },
        )
    } else {
        poll(offer, Stage::BtcClaim, attempts)
    }
}

/// Whether the local party has its own address and the address of the
/// locking script of `offer` on its network.
pub open spec fn addresses_known(state: GauloiState, offer: Offer) -> bool {
    &&& btc_pubkey_of(state.master_extended@) matches Some(pubkey)
    &&& address_text_of(p2wpkh_script(pubkey), state.network) is Some
    &&& address_text_of(p2wsh_script(offer.spec_htlc_script()), state.network) is Some
}

/// The address of the locking script of `offer`, at which the BTC of
/// the swap is looked for.
pub fn htlc_address(state: &GauloiState, offer: &Offer) -> (r: Result<Address, SwapError>)
    ensures
        match r {
            Ok(address) => {
                &&& address.script_pubkey@ == p2wsh_script(offer.spec_htlc_script())
                &&& address_text_of(address.script_pubkey@, state.network) == Some(address.text@)
            },
            Err(e) => e == SwapError::Keyring && address_text_of(
                p2wsh_script(offer.spec_htlc_script()),
                state.network,
            ) is None,
        },
{
    let htlc_script = offer.htlc_script();
    state.p2wsh_address(&htlc_script)
}

/// The transaction that `FundHtlc` asks for: it pays `value` into the
/// locking script of `offer` from the unspent outputs of the seller
/// that greedy selection takes for `needed`, and returns the change to
/// the seller.
pub fn fund_htlc(
    state: &GauloiState,
    offer: &Offer,
    own_utxos: Vec<RelevantTxInfo>,
    value: u64,
    needed: u128,
    miner_fee: u64,
) -> (r: Result<Transaction, SwapError>)
    ensures
        match r {
            Ok(tx) => {
                &&& addresses_known(*state, *offer)
                &&& value + miner_fee <= total_value(selected(own_utxos@, needed as nat))
                    <= u64::MAX
                &&& signed_funding(
                    state.master_extended@,
                    selected(own_utxos@, needed as nat),
                    p2wsh_script(offer.spec_htlc_script()),
                    p2wpkh_script(btc_pubkey_of(state.master_extended@).unwrap()),
                    value,
                    miner_fee,
                ) == Some(tx@)
            },
            Err(e) => if !addresses_known(*state, *offer) {
                e == SwapError::Keyring
            } else if total_value(selected(own_utxos@, needed as nat)) > u64::MAX {
                e == SwapError::ValueOutOfRange
            } else if total_value(selected(own_utxos@, needed as nat)) < value + miner_fee {
                e == SwapError::InsufficientFunds
            } else {
                e == SwapError::Keyring && signed_funding(
                    state.master_extended@,
                    selected(own_utxos@, needed as nat),
                    p2wsh_script(offer.spec_htlc_script()),
                    p2wpkh_script(btc_pubkey_of(state.master_extended@).unwrap()),
                    value,
                    miner_fee,
                ) is None
            },
        },
{
    let htlc_address = match htlc_address(state, offer) {
        Ok(address) => address,
        Err(e) => {
            return Err(e);
        },
    };
    let our_btc = match state.p2wpkh_address() {
        Ok(address) => address,
        Err(e) => {
            return Err(e);
        },
    };
    let api = BitcoinApi {};
    let ins = api.find_unspents_for_value(own_utxos, needed);
    api.build_transaction(state, ins, &htlc_address, &our_btc, value, miner_fee)
}

/// The transaction that `ClaimBtc` asks for: it claims every unspent
/// output of the locking script of `offer` for the buyer, with the
/// preimage that the contract showed.
pub fn claim_htlc(
    state: &GauloiState,
    offer: &Offer,
    htlc_utxos: Vec<RelevantTxInfo>,
    preimage: [u8; 32],
    miner_fee: u64,
) -> (r: Result<Transaction, SwapError>)
    ensures
        match r {
            Ok(tx) => {
                &&& btc_pubkey_of(state.master_extended@) is Some
                &&& miner_fee <= total_value(htlc_utxos@) <= u64::MAX
                &&& signed_claim(
                    state.master_extended@,
                    htlc_utxos@,
                    p2wpkh_script(btc_pubkey_of(state.master_extended@).unwrap()),
                    offer.spec_htlc_script(),
                    preimage@,
                    miner_fee,
                ) == Some(tx@)
            },
            Err(e) => if !(btc_pubkey_of(state.master_extended@) matches Some(pubkey)
                && address_text_of(p2wpkh_script(pubkey), state.network) is Some) {
                e == SwapError::Keyring
            } else if total_value(htlc_utxos@) > u64::MAX {
                e == SwapError::ValueOutOfRange
            } else if total_value(htlc_utxos@) < miner_fee {
                e == SwapError::InsufficientFunds
            } else {
                e == SwapError::Keyring && signed_claim(
                    state.master_extended@,
                    htlc_utxos@,
                    p2wpkh_script(btc_pubkey_of(state.master_extended@).unwrap()),
                    offer.spec_htlc_script(),
                    preimage@,
                    miner_fee,
                ) is None
            },
        },
{
    let our_btc = match state.p2wpkh_address() {
        Ok(address) => address,
        Err(e) => {
            return Err(e);
        },
    };
    let htlc_script = offer.htlc_script();
    let api = BitcoinApi {};
    api.build_claim_btc(state, htlc_utxos, &our_btc, htlc_script, preimage, miner_fee)
}

/// The transaction that takes the BTC back for the seller once the
/// lockup of `offer` has passed: it spends every unspent output of the
/// locking script by the refund branch.
pub fn refund_htlc(
    state: &GauloiState,
    offer: &Offer,
    htlc_utxos: Vec<RelevantTxInfo>,
    miner_fee: u64,
) -> (r: Result<Transaction, SwapError>)
    ensures
        match r {
            Ok(tx) => {
                &&& btc_pubkey_of(state.master_extended@) is Some
                &&& miner_fee <= total_value(htlc_utxos@) <= u64::MAX
                &&& signed_refund(
                    state.master_extended@,
                    htlc_utxos@,
                    p2wpkh_script(btc_pubkey_of(state.master_extended@).unwrap()),
                    offer.spec_htlc_script(),
                    offer.lockup_btc,
                    miner_fee,
                ) == Some(tx@)
            },
            Err(e) => if !(btc_pubkey_of(state.master_extended@) matches Some(pubkey)
                && address_text_of(p2wpkh_script(pubkey), state.network) is Some) {
                e == SwapError::Keyring
            } else if total_value(htlc_utxos@) > u64::MAX {
                e == SwapError::ValueOutOfRange
            } else if total_value(htlc_utxos@) < miner_fee {
                e == SwapError::InsufficientFunds
            } else {
                e == SwapError::Keyring && signed_refund(
                    state.master_extended@,
                    htlc_utxos@,
                    p2wpkh_script(btc_pubkey_of(state.master_extended@).unwrap()),
                    offer.spec_htlc_script(),
                    offer.lockup_btc,
                    miner_fee,
                ) is None
            },
        },
{
    let our_btc = match state.p2wpkh_address() {
        Ok(address) => address,
        Err(e) => {
            return Err(e);
        },
    };
    let htlc_script = offer.htlc_script();
    let api = BitcoinApi {};
    api.build_refund_btc(state, htlc_utxos, &our_btc, htlc_script, offer.lockup_btc, miner_fee)
}

/// The completed offer that `args` asks to execute.
pub fn offer_to_execute(db: &SwapStorage, args: &ExecuteArgs) -> (r: Result<Offer, SwapError>)
    ensures
        match r {
            Ok(offer) => {
                &&& listed_offers(db.offer_entries()) matches Some(listed)
                &&& args.swap_id < listed.len()
                &&& listed[args.swap_id as int] == offer@
            },
            Err(e) => match listed_offers(db.offer_entries()) {
                Some(listed) => e == SwapError::Storage || (e == SwapError::IndexOutOfRange
                    && args.swap_id >= listed.len()),
                None => e == SwapError::Storage || e == SwapError::Malformed,
            },
        },
{
    db.get_complete_offer(args.swap_id)
}

/// One step of the engine for the party with the pubkey hash given:
/// the state and the action that follow from `state` and from what the
/// last action brought.
pub fn execute(offer: &Offer, our_pubkey_hash: [u8; 20], state: SwapState, event: Event) -> (r: (
    SwapState,
    Action,
))
    ensures
        r == transition(
            *offer,
            offer.spec_is_user_seller(our_pubkey_hash),
            offer.spec_is_user_buyer(our_pubkey_hash),
            state,
            event,
        ),
{
    let is_seller = offer.is_user_seller(our_pubkey_hash);
    let is_buyer = offer.is_user_buyer(our_pubkey_hash);
    match state {
        SwapState::Ready => enter(offer, Stage::BtcCommit),
        SwapState::Finished => (SwapState::Finished, Action::Finish),
        SwapState::Failed(error) => fail(error),
        SwapState::Running { stage, phase, attempts } => match (stage, phase, event) {
            (_, _, Event::Refused(error)) => fail(error),
            (
                Stage::BtcCommit,
                Phase::Observing,
                Event::HtlcBalance(balance),
            ) => await_or_start_btc_commitment(offer, is_seller, attempts, balance),
            (Stage::BtcCommit, Phase::Acting, Event::Submitted) => enter(offer, Stage::EthCommit),
            (
                Stage::EthCommit,
                Phase::Observing,
                Event::EthSwap(swap),
            ) => await_or_start_eth_commitment(offer, is_buyer, attempts, &swap),
            (Stage::EthCommit, Phase::Acting, Event::Submitted) => enter(offer, Stage::EthClaim),
            (
                Stage::EthClaim,
                Phase::Observing,
                Event::EthSwap(swap),
            ) => await_or_claim_eth_commitment(offer, is_seller, is_buyer, attempts, &swap),
            (
                Stage::EthClaim,
                Phase::LoadingPreimage { swap_id },
                Event::StoredPreimage(stored),
            ) => claim_eth_with(attempts, swap_id, stored),
            (Stage::EthClaim, Phase::Acting, Event::Submitted) => finish_eth_claim(offer, is_buyer),
            (Stage::BtcClaim, Phase::Observing, Event::EthSwap(swap)) => claim_btc_commitment(
                offer,
                is_buyer,
                attempts,
                &swap,
            ),
            (Stage::BtcClaim, Phase::Acting, Event::Submitted) => (
                SwapState::Finished,
                Action::Finish,
            ),
            _ => poll(offer, stage, attempts),
        },
    }
}

} // verus!
