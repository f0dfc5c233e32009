use gauloi::error::SwapError;
use gauloi::eth_api::{Swap, U256};
use gauloi::execute::{execute, Action, Event, Phase, Stage, SwapState, MINER_FEE};
use gauloi::offer::Offer;

const SELLER: [u8; 20] = [2u8; 20];
const BUYER: [u8; 20] = [1u8; 20];
const STRANGER: [u8; 20] = [9u8; 20];
const PREIMAGE: [u8; 32] = [0x42u8; 32];
const HASH: [u8; 32] = [0x11u8; 32];

fn offer() -> Offer {
    Offer {
        version: 0,
        sold: 100_000,
        bought: 50_000_000_000,
        lockup_eth: 5,
        lockup_btc: 10,
        seller_pubkey_hash: SELLER,
        buyer_pubkey_hash: BUYER,
        seller_eth_address: [3u8; 20],
        buyer_eth_address: [4u8; 20],
        swap_id_hex: None,
        preimage_hash: HASH,
        request_hash: [0x22u8; 32],
    }
}

fn no_swap() -> Swap {
    Swap {
        id: U256 { hi: 0, lo: 0 },
        value: U256 { hi: 0, lo: 0 },
        preimage_hash: [0u8; 32],
        preimage: [0u8; 32],
    }
}

fn committed(value: u128) -> Swap {
    Swap {
        id: U256 { hi: 0, lo: 7 },
        value: U256 { hi: 0, lo: value },
        preimage_hash: HASH,
        preimage: [0u8; 32],
    }
}

fn claimed() -> Swap {
    Swap { preimage: PREIMAGE, ..committed(50_000_000_000) }
}

fn running(stage: Stage, phase: Phase, attempts: u8) -> SwapState {
    SwapState::Running { stage, phase, attempts }
}

/// The two chains and the seller's store, as far as the engine sees them.
struct World {
    htlc_balance: u128,
    swap: Swap,
    stored_preimage: Option<[u8; 32]>,
    fundings: Vec<(u64, u128, u64)>,
    eth_commits: u32,
    eth_claims: u32,
    btc_claims: Vec<[u8; 32]>,
    seller_eth: u128,
    buyer_btc: u128,
    slept: u64,
}

impl World {
    fn new() -> World {
        World {
            htlc_balance: 0,
            swap: no_swap(),
            stored_preimage: Some(PREIMAGE),
            fundings: Vec::new(),
            eth_commits: 0,
            eth_claims: 0,
            btc_claims: Vec::new(),
            seller_eth: 0,
            buyer_btc: 0,
            slept: 0,
        }
    }

    /// Performs an action and says what it brought.
    fn perform(&mut self, action: Action) -> Event {
        match action {
            Action::ObserveHtlc { delay_seconds } => {
                self.slept += delay_seconds;
                Event::HtlcBalance(self.htlc_balance)
            }
            Action::FundHtlc { value, needed, miner_fee } => {
                self.fundings.push((value, needed, miner_fee));
                self.htlc_balance += value as u128;
                Event::Submitted
            }
            Action::ObserveSwap { preimage_hash, delay_seconds } => {
                assert_eq!(preimage_hash, HASH);
                self.slept += delay_seconds;
                Event::EthSwap(self.swap)
            }
            Action::CommitEth { seller, value, preimage_hash, timeout } => {
                assert_eq!(seller, [3u8; 20]);
                assert_eq!(timeout, 5);
                self.eth_commits += 1;
                self.swap = Swap { preimage_hash, ..committed(value) };
                Event::Submitted
            }
            Action::LoadPreimage { request_hash } => {
                assert_eq!(request_hash, [0x22u8; 32]);
                Event::StoredPreimage(self.stored_preimage)
            }
            Action::ClaimEth { swap_id, preimage } => {
                assert_eq!(swap_id, self.swap.id);
                self.eth_claims += 1;
                self.swap.preimage = preimage;
                self.seller_eth += self.swap.value.lo;
                Event::Submitted
            }
            Action::ClaimBtc { preimage, miner_fee } => {
                self.btc_claims.push(preimage);
                self.buyer_btc += self.htlc_balance - miner_fee as u128;
                self.htlc_balance = 0;
                Event::Submitted
            }
            Action::Finish | Action::Fail(_) => Event::Begin,
        }
    }
}

fn is_final(state: &SwapState) -> bool {
    matches!(state, SwapState::Finished | SwapState::Failed(_))
}

/// Runs one party until its engine is final.
fn run(who: [u8; 20], world: &mut World) -> SwapState {
    let offer = offer();
    let mut state = SwapState::Ready;
    let mut event = Event::Begin;
    for _ in 0..200 {
        let (next, action) = execute(&offer, who, state, event);
        state = next;
        if is_final(&state) {
            return state;
        }
        event = world.perform(action);
    }
    panic!("the engine did not come to an end");
}

#[test]
fn happy_path_takes_both_parties_through() {
    let offer = offer();
    let mut world = World::new();
    let mut states = [SwapState::Ready, SwapState::Ready];
    let mut events = [Event::Begin, Event::Begin];
    let parties = [SELLER, BUYER];
    for _ in 0..100 {
        for p in 0..2 {
            if is_final(&states[p]) {
                continue;
            }
            let (next, action) = execute(&offer, parties[p], states[p], events[p]);
            states[p] = next;
            events[p] = world.perform(action);
        }
    }
    assert_eq!(states[0], SwapState::Finished);
    assert_eq!(states[1], SwapState::Finished);
    assert_eq!(world.fundings, vec![(100_000, 100_000 + MINER_FEE as u128, MINER_FEE)]);
    assert_eq!(world.eth_commits, 1);
    assert_eq!(world.eth_claims, 1);
    assert_eq!(world.btc_claims, vec![PREIMAGE]);
    assert_eq!(world.swap.preimage, PREIMAGE);
    assert_eq!(world.seller_eth, 50_000_000_000);
    assert_eq!(world.buyer_btc, 100_000 - MINER_FEE as u128);
}

#[test]
fn seller_alone_funds_and_then_waits_for_the_buyer() {
    let mut world = World::new();
    let end = run(SELLER, &mut world);
    assert_eq!(end, SwapState::Failed(SwapError::ChainBackoff));
    assert_eq!(world.fundings.len(), 1);
    assert_eq!(world.htlc_balance, 100_000);
    assert_eq!(world.eth_commits, 0);
    // ten looks at the contract: the first at once, nine after a wait
    assert_eq!(world.slept, 90);
}

#[test]
fn buyer_alone_waits_for_the_funding_and_gives_up() {
    let mut world = World::new();
    let end = run(BUYER, &mut world);
    assert_eq!(end, SwapState::Failed(SwapError::ChainBackoff));
    assert!(world.fundings.is_empty());
    assert_eq!(world.eth_commits, 0);
    assert_eq!(world.slept, 90);
}

#[test]
fn resumed_seller_does_not_fund_twice() {
    let mut world = World::new();
    world.htlc_balance = 100_000;
    let offer = offer();
    let (state, action) = execute(&offer, SELLER, SwapState::Ready, Event::Begin);
    assert!(matches!(action, Action::ObserveHtlc { delay_seconds: 0 }));
    let (state, action) = execute(&offer, SELLER, state, world.perform(action));
    assert_eq!(state, running(Stage::EthCommit, Phase::Observing, 1));
    assert!(matches!(action, Action::ObserveSwap { delay_seconds: 0, .. }));
    let end = run(SELLER, &mut world);
    assert_eq!(end, SwapState::Failed(SwapError::ChainBackoff));
    assert!(world.fundings.is_empty());
    assert_eq!(world.htlc_balance, 100_000);
}

#[test]
fn seller_funds_only_what_is_missing() {
    let offer = offer();
    let state = running(Stage::BtcCommit, Phase::Observing, 1);
    let (next, action) = execute(&offer, SELLER, state, Event::HtlcBalance(40_000));
    assert_eq!(next, running(Stage::BtcCommit, Phase::Acting, 1));
    match action {
        Action::FundHtlc { value, needed, miner_fee } => {
            assert_eq!(value, 60_000);
            assert_eq!(needed, 61_200);
            assert_eq!(miner_fee, 1200);
        }
        other => panic!("expected a funding, got {:?}", other),
    }
    let (next, action) = execute(&offer, SELLER, next, Event::Submitted);
    assert_eq!(next, running(Stage::EthCommit, Phase::Observing, 1));
    assert!(matches!(action, Action::ObserveSwap { preimage_hash: HASH, delay_seconds: 0 }));
}

#[test]
fn more_than_the_amount_sold_counts_as_funded() {
    let offer = offer();
    let state = running(Stage::BtcCommit, Phase::Observing, 3);
    let (next, _) = execute(&offer, SELLER, state, Event::HtlcBalance(100_001));
    assert_eq!(next, running(Stage::EthCommit, Phase::Observing, 1));
    let (next, _) = execute(&offer, BUYER, state, Event::HtlcBalance(100_000));
    assert_eq!(next, running(Stage::EthCommit, Phase::Observing, 1));
}

#[test]
fn amount_beyond_a_transaction_output_is_out_of_range() {
    let mut offer = offer();
    offer.sold = u64::MAX as u128;
    let state = running(Stage::BtcCommit, Phase::Observing, 1);
    let (next, action) = execute(&offer, SELLER, state, Event::HtlcBalance(0));
    assert_eq!(next, SwapState::Failed(SwapError::ValueOutOfRange));
    assert!(matches!(action, Action::Fail(SwapError::ValueOutOfRange)));
    offer.sold = (u64::MAX - MINER_FEE) as u128;
    let (next, action) = execute(&offer, SELLER, state, Event::HtlcBalance(0));
    assert_eq!(next, running(Stage::BtcCommit, Phase::Acting, 1));
    assert!(matches!(
        action,
        Action::FundHtlc { value, needed, .. }
            if value == u64::MAX - MINER_FEE && needed == u64::MAX as u128
    ));
}

#[test]
fn buyer_commits_eth_where_no_swap_exists() {
    let offer = offer();
    let state = running(Stage::EthCommit, Phase::Observing, 2);
    let (next, action) = execute(&offer, BUYER, state, Event::EthSwap(no_swap()));
    assert_eq!(next, running(Stage::EthCommit, Phase::Acting, 2));
    match action {
        Action::CommitEth { seller, value, preimage_hash, timeout } => {
            assert_eq!(seller, [3u8; 20]);
            assert_eq!(value, 50_000_000_000);
            assert_eq!(preimage_hash, HASH);
            assert_eq!(timeout, 5);
        }
        other => panic!("expected a commitment, got {:?}", other),
    }
    // the seller waits
    let (next, action) = execute(&offer, SELLER, state, Event::EthSwap(no_swap()));
    assert_eq!(next, running(Stage::EthCommit, Phase::Observing, 3));
    assert!(matches!(action, Action::ObserveSwap { delay_seconds: 10, .. }));
}

#[test]
fn swap_with_another_amount_is_a_mismatched_commitment() {
    let offer = offer();
    let state = running(Stage::EthCommit, Phase::Observing, 1);
    for who in [SELLER, BUYER, STRANGER] {
        let (next, action) = execute(&offer, who, state, Event::EthSwap(committed(49_999_999_999)));
        assert_eq!(next, SwapState::Failed(SwapError::MismatchedCommitment));
        assert!(matches!(action, Action::Fail(SwapError::MismatchedCommitment)));
    }
    // an amount beyond 128 bits is another amount too
    let mut huge = committed(50_000_000_000);
    huge.value.hi = 1;
    let (next, _) = execute(&offer, BUYER, state, Event::EthSwap(huge));
    assert_eq!(next, SwapState::Failed(SwapError::MismatchedCommitment));
}

#[test]
fn swap_with_the_amount_bought_moves_on() {
    let offer = offer();
    let state = running(Stage::EthCommit, Phase::Observing, 4);
    let (next, action) = execute(&offer, SELLER, state, Event::EthSwap(committed(50_000_000_000)));
    assert_eq!(next, running(Stage::EthClaim, Phase::Observing, 1));
    assert!(matches!(action, Action::ObserveSwap { delay_seconds: 0, .. }));
}

#[test]
fn seller_claims_eth_with_the_stored_preimage() {
    let offer = offer();
    let state = running(Stage::EthClaim, Phase::Observing, 1);
    let observed = committed(50_000_000_000);
    let (next, action) = execute(&offer, SELLER, state, Event::EthSwap(observed));
    assert_eq!(
        next,
        running(Stage::EthClaim, Phase::LoadingPreimage { swap_id: observed.id }, 1)
    );
    assert!(matches!(action, Action::LoadPreimage { request_hash } if request_hash == [0x22u8; 32]));
    let (next, action) = execute(&offer, SELLER, next, Event::StoredPreimage(Some(PREIMAGE)));
    assert_eq!(next, running(Stage::EthClaim, Phase::Acting, 1));
    assert!(matches!(
        action,
        Action::ClaimEth { swap_id, preimage } if swap_id == observed.id && preimage == PREIMAGE
    ));
    let (next, action) = execute(&offer, SELLER, next, Event::Submitted);
    assert_eq!(next, SwapState::Finished);
    assert!(matches!(action, Action::Finish));
}

#[test]
fn missing_preimage_is_fatal_and_changes_no_chain() {
    let mut world = World::new();
    world.htlc_balance = 100_000;
    world.swap = committed(50_000_000_000);
    world.stored_preimage = None;
    let end = run(SELLER, &mut world);
    assert_eq!(end, SwapState::Failed(SwapError::MissingPreimage));
    assert_eq!(world.eth_claims, 0);
    assert_eq!(world.swap.preimage, [0u8; 32]);
    assert_eq!(world.htlc_balance, 100_000);
    assert!(world.fundings.is_empty());

    let offer = offer();
    let state = running(
        Stage::EthClaim,
        Phase::LoadingPreimage { swap_id: U256 { hi: 0, lo: 7 } },
        1,
    );
    let (next, action) = execute(&offer, SELLER, state, Event::StoredPreimage(None));
    assert_eq!(next, SwapState::Failed(SwapError::MissingPreimage));
    assert!(matches!(action, Action::Fail(SwapError::MissingPreimage)));
}

#[test]
fn buyer_waits_for_the_claim_and_then_claims_btc() {
    let offer = offer();
    let state = running(Stage::EthClaim, Phase::Observing, 1);
    let (next, action) = execute(&offer, BUYER, state, Event::EthSwap(committed(50_000_000_000)));
    assert_eq!(next, running(Stage::EthClaim, Phase::Observing, 2));
    assert!(matches!(action, Action::ObserveSwap { delay_seconds: 10, .. }));
    let (next, action) = execute(&offer, BUYER, next, Event::EthSwap(claimed()));
    assert_eq!(next, running(Stage::BtcClaim, Phase::Observing, 1));
    assert!(matches!(action, Action::ObserveSwap { delay_seconds: 0, .. }));
    let (next, action) = execute(&offer, BUYER, next, Event::EthSwap(claimed()));
    assert_eq!(next, running(Stage::BtcClaim, Phase::Acting, 1));
    assert!(matches!(
        action,
        Action::ClaimBtc { preimage, miner_fee } if preimage == PREIMAGE && miner_fee == 1200
    ));
    let (next, action) = execute(&offer, BUYER, next, Event::Submitted);
    assert_eq!(next, SwapState::Finished);
    assert!(matches!(action, Action::Finish));
}

#[test]
fn btc_claim_before_the_reveal_is_refused() {
    let offer = offer();
    let state = running(Stage::BtcClaim, Phase::Observing, 1);
    let (next, action) = execute(&offer, BUYER, state, Event::EthSwap(committed(50_000_000_000)));
    assert_eq!(next, SwapState::Failed(SwapError::PreimageNotRevealed));
    assert!(matches!(action, Action::Fail(SwapError::PreimageNotRevealed)));
}

#[test]
fn stage_gives_up_after_ten_looks() {
    let offer = offer();
    for stage in [Stage::BtcCommit, Stage::EthCommit, Stage::EthClaim, Stage::BtcClaim] {
        let (next, action) =
            execute(&offer, STRANGER, running(stage, Phase::Observing, 9), Event::Unavailable);
        assert_eq!(next, running(stage, Phase::Observing, 10));
        assert!(matches!(
            action,
            Action::ObserveHtlc { delay_seconds: 10 } | Action::ObserveSwap { delay_seconds: 10, .. }
        ));
        let (next, action) =
            execute(&offer, STRANGER, running(stage, Phase::Observing, 10), Event::Unavailable);
        assert_eq!(next, SwapState::Failed(SwapError::ChainBackoff));
        assert!(matches!(action, Action::Fail(SwapError::ChainBackoff)));
    }
}

#[test]
fn failed_transaction_is_looked_at_again_before_it_is_repeated() {
    let offer = offer();
    let (next, action) = execute(
        &offer,
        BUYER,
        running(Stage::EthCommit, Phase::Acting, 1),
        Event::Unavailable,
    );
    assert_eq!(next, running(Stage::EthCommit, Phase::Observing, 2));
    assert!(matches!(action, Action::ObserveSwap { delay_seconds: 10, .. }));
}

#[test]
fn event_that_answers_nothing_counts_as_a_look() {
    let offer = offer();
    let state = running(Stage::BtcCommit, Phase::Observing, 1);
    let (next, action) = execute(&offer, SELLER, state, Event::EthSwap(claimed()));
    assert_eq!(next, running(Stage::BtcCommit, Phase::Observing, 2));
    assert!(matches!(action, Action::ObserveHtlc { delay_seconds: 10 }));
}

#[test]
fn refusal_is_final() {
    let offer = offer();
    let state = running(Stage::BtcCommit, Phase::Acting, 1);
    let (next, action) =
        execute(&offer, SELLER, state, Event::Refused(SwapError::InsufficientFunds));
    assert_eq!(next, SwapState::Failed(SwapError::InsufficientFunds));
    assert!(matches!(action, Action::Fail(SwapError::InsufficientFunds)));
    let (again, action) = execute(&offer, SELLER, next, Event::HtlcBalance(100_000));
    assert_eq!(again, next);
    assert!(matches!(action, Action::Fail(SwapError::InsufficientFunds)));
    let (done, action) = execute(&offer, SELLER, SwapState::Finished, Event::Submitted);
    assert_eq!(done, SwapState::Finished);
    assert!(matches!(action, Action::Finish));
}

#[test]
fn zero_amount_bought_needs_no_commitment() {
    let mut offer = offer();
    offer.bought = 0;
    let state = running(Stage::EthCommit, Phase::Observing, 1);
    let (next, _) = execute(&offer, BUYER, state, Event::EthSwap(no_swap()));
    assert_eq!(next, running(Stage::EthClaim, Phase::Observing, 1));
}

#[test]
fn roles_are_told_by_pubkey_hash_or_eth_address() {
    let offer = offer();
    assert!(offer.is_user_seller(SELLER));
    assert!(offer.is_user_seller([3u8; 20]));
    assert!(!offer.is_user_seller(BUYER));
    assert!(!offer.is_user_seller([4u8; 20]));
    assert!(offer.is_user_buyer(BUYER));
    assert!(offer.is_user_buyer([4u8; 20]));
    assert!(!offer.is_user_buyer(SELLER));
    assert!(!offer.is_user_buyer(STRANGER));
}
