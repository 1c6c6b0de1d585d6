//! The state applier: the single entry point invoked once per
//! consensus-delivered transaction, in delivery order.
//!
//! Each delivery runs, strictly in this order and short-circuiting on the
//! first failure: signature verification, strict nonce equality, fee
//! solvency, then dispatch by payload kind. A failure makes the
//! transaction a no-op, never a fault; every check precedes every
//! mutation, so a rejected transaction changes nothing, and an accepted
//! one lands in full — nonce increment, fee debit and inventory change
//! together.
//!
//! Fee policy: a duplicate bid id is detected only after the nonce and fee
//! checks pass, so the fee is still charged and the nonce still advances
//! on a `DuplicateBidId` rejection. A bid's price is not escrowed at
//! placement time; only the fee moves at delivery.
//!
//! Nonce policy: a transaction must carry exactly the account's next
//! expected nonce, and an account whose nonce counter has reached the
//! representable maximum accepts no further transactions, so the counter
//! never wraps.

use vstd::prelude::*;
use crate::identity::spec_address_of;
use crate::identity::address_of;
use crate::inventory::{best_entry, contains_id, remove_id, BidInventory, InventoryEntry};
use crate::ledger::{find_account, Ledger};
use crate::primitives::{AuctionTrigger, Bid, Match, Signed};

verus! {

/// The transactions the state machine can process, as delivered by the
/// consensus layer.
#[derive(Clone, Debug)]
pub enum Transaction {
    PlaceBid(Signed<Bid>),
    TriggerAuction(Signed<AuctionTrigger>),
}

/// Why a delivered transaction was a no-op. Every rejection is a purely
/// local decision reproducible by every node from the same input.
#[derive(Clone, Copy, Debug, PartialEq, Eq, Structural)]
pub enum ApplyError {
    /// The envelope's signature does not verify.
    InvalidSignature,
    /// The envelope's nonce is not the signer's next expected nonce.
    ReplayedOrOutOfOrderNonce,
    /// The signer's balance does not cover the fee.
    InsufficientFunds,
    /// A bid with the same id is already open (fee still charged).
    DuplicateBidId,
}

/// What an accepted transaction did, emitted for downstream consumers.
#[derive(Clone, Debug, PartialEq, Eq)]
pub enum Effect {
    /// The bid with this id was added to the inventory.
    BidPlaced(u128),
    /// The auction matched this winning bid, now removed from inventory.
    Matched(Match),
    /// No open bid was eligible; only the fee was charged.
    NoMatch,
}

/// Whether the transaction's envelope signature is valid.
pub open spec fn tx_valid(tx: Transaction) -> bool {
    match tx {
        Transaction::PlaceBid(env) => env.valid(),
        Transaction::TriggerAuction(env) => env.valid(),
    }
}

/// The transaction's signer key bytes.
pub open spec fn tx_signer(tx: Transaction) -> Seq<u8> {
    match tx {
        Transaction::PlaceBid(env) => env.signer.0@,
        Transaction::TriggerAuction(env) => env.signer.0@,
    }
}

/// The ledger address of the transaction's signer.
pub open spec fn tx_addr(tx: Transaction) -> Seq<char> {
    spec_address_of(tx_signer(tx))
}

/// The transaction's nonce.
pub open spec fn tx_nonce(tx: Transaction) -> u64 {
    match tx {
        Transaction::PlaceBid(env) => env.nonce,
        Transaction::TriggerAuction(env) => env.nonce,
    }
}

/// The transaction's fee.
pub open spec fn tx_fee(tx: Transaction) -> u64 {
    match tx {
        Transaction::PlaceBid(env) => env.fee,
        Transaction::TriggerAuction(env) => env.fee,
    }
}

/// The replay-protection rule: the transaction must carry exactly the
/// signer's next expected nonce, and the counter must have room to
/// advance.
pub open spec fn nonce_ok(l: Ledger, tx: Transaction) -> bool {
    &&& tx_nonce(tx) == l.spec_nonce(tx_addr(tx))
    &&& tx_nonce(tx) < u64::MAX
}

/// The first of the pre-dispatch checks that `tx` fails against ledger
/// `l`, if any: signature, then nonce, then fee solvency.
pub open spec fn rejection_of(l: Ledger, tx: Transaction) -> Option<ApplyError> {
    if !tx_valid(tx) {
        Some(ApplyError::InvalidSignature)
    } else if !nonce_ok(l, tx) {
        Some(ApplyError::ReplayedOrOutOfOrderNonce)
    } else if tx_fee(tx) > l.spec_balance(tx_addr(tx)) {
        Some(ApplyError::InsufficientFunds)
    } else {
        None
    }
}

/// Whether `tx` passes every pre-dispatch check against ledger `l`.
pub open spec fn accepts(l: Ledger, tx: Transaction) -> bool {
    rejection_of(l, tx) is None
}

/// The ledger effect of accepting a transaction from `addr` with fee
/// `fee`: the nonce advances by exactly one, the balance drops by exactly
/// the fee, and every other account is untouched.
pub open spec fn charged(pre: Ledger, post: Ledger, addr: Seq<char>, fee: u64) -> bool {
    &&& post.spec_nonce(addr) == pre.spec_nonce(addr) + 1
    &&& post.spec_balance(addr) == pre.spec_balance(addr) - fee
    &&& forall|a: Seq<char>|
        a != addr ==> #[trigger] find_account(post.snap(), a) == find_account(pre.snap(), a)
}

/// The full apply contract: what one delivery does to the state and what
/// it returns, as a relation between the state before, the state after,
/// the transaction and the result.
pub open spec fn apply_spec(
    pre: ExchangeState,
    post: ExchangeState,
    tx: Transaction,
    r: Result<Effect, ApplyError>,
) -> bool {
    match rejection_of(pre.ledger, tx) {
        Some(e) => {
            &&& r == Err::<Effect, ApplyError>(e)
            &&& post.ledger.snap() == pre.ledger.snap()
            &&& post.inventory.snap() == pre.inventory.snap()
        },
        None => {
            &&& charged(pre.ledger, post.ledger, tx_addr(tx), tx_fee(tx))
            &&& match tx {
                Transaction::PlaceBid(env) => {
                    if contains_id(pre.inventory.snap(), env.data.id) {
                        &&& r == Err::<Effect, ApplyError>(ApplyError::DuplicateBidId)
                        &&& post.inventory.snap() == pre.inventory.snap()
                    } else {
                        &&& r == Ok::<Effect, ApplyError>(Effect::BidPlaced(env.data.id))
                        &&& post.inventory.snap().len() == pre.inventory.snap().len() + 1
                        &&& post.inventory.snap().drop_last() == pre.inventory.snap()
                        &&& post.inventory.snap().last().bid == env.data
                        &&& post.inventory.snap().last().advertiser@ == tx_addr(tx)
                    }
                },
                Transaction::TriggerAuction(env) => match best_entry(
                    pre.inventory.snap(),
                    env.data,
                ) {
                    None => {
                        &&& r == Ok::<Effect, ApplyError>(Effect::NoMatch)
                        &&& post.inventory.snap() == pre.inventory.snap()
                    },
                    Some(w) => {
                        &&& (r matches Ok(Effect::Matched(m)) && m.bid_id == w.bid.id
                            && m.auction_id == env.data.id && m.winning_price == w.bid.price
                            && m.advertiser_addr@ == w.advertiser@ && m.publisher_addr@ == tx_addr(
                            tx,
                        ))
                        &&& post.inventory.snap() == remove_id(pre.inventory.snap(), w.bid.id)
                    },
                },
            }
        },
    }
}

/// The durable state one node replicates: the ledger and the open-bid
/// inventory.
#[derive(Debug)]
pub struct ExchangeState {
    pub ledger: Ledger,
    pub inventory: BidInventory,
}

impl ExchangeState {
    /// Well-formedness of both stores.
    pub open spec fn wf(&self) -> bool {
        &&& self.ledger.wf()
        &&& self.inventory.wf()
    }

    /// Creates an empty state: no accounts, no open bids.
    pub fn new() -> (r: ExchangeState)
        ensures
            r.wf(),
            r.ledger.snap().len() == 0,
            r.inventory.snap().len() == 0,
    {
        ExchangeState { ledger: Ledger::new(), inventory: BidInventory::new() }
    }
}

/// Applies one consensus-delivered transaction: verification, strict
/// nonce check, fee debit, and dispatch into inventory or matching
/// engine, all-or-nothing.
pub fn apply(state: &mut ExchangeState, tx: Transaction) -> (r: Result<Effect, ApplyError>)
    requires
        old(state).wf(),
    ensures
        final(state).wf(),
        apply_spec(*old(state), *final(state), tx, r),
{
    match tx {
        Transaction::PlaceBid(env) => {
            if !env.verify() {
                return Err(ApplyError::InvalidSignature);
            }
            let addr = address_of(&env.signer);
            let expected = state.ledger.get_next_nonce(&addr);
            if env.nonce != expected || expected == u64::MAX {
                return Err(ApplyError::ReplayedOrOutOfOrderNonce);
            }
            let balance = state.ledger.get_balance(&addr);
            if env.fee > balance {
                return Err(ApplyError::InsufficientFunds);
            }
            state.ledger.get_and_increment_nonce(&addr);
            let debited = state.ledger.debit(&addr, env.fee);
            proof {
                assert(debited is Ok);
            }
            let bid_id = env.data.id;
            let entry = InventoryEntry { bid: env.data, advertiser: addr };
            let ghost pre_inv = state.inventory.snap();
            if state.inventory.place_bid(entry) {
                proof {
                    assert(state.inventory.snap().drop_last() =~= pre_inv);
                }
                Ok(Effect::BidPlaced(bid_id))
            } else {
                Err(ApplyError::DuplicateBidId)
            }
        },
        Transaction::TriggerAuction(env) => {
            if !env.verify() {
                return Err(ApplyError::InvalidSignature);
            }
            let addr = address_of(&env.signer);
            let expected = state.ledger.get_next_nonce(&addr);
            if env.nonce != expected || expected == u64::MAX {
                return Err(ApplyError::ReplayedOrOutOfOrderNonce);
            }
            let balance = state.ledger.get_balance(&addr);
            if env.fee > balance {
                return Err(ApplyError::InsufficientFunds);
            }
            state.ledger.get_and_increment_nonce(&addr);
            let debited = state.ledger.debit(&addr, env.fee);
            proof {
                assert(debited is Ok);
            }
            match state.inventory.find_match(&env.data, &addr) {
                Some(m) => {
                    let bid_id = m.bid_id;
                    state.inventory.remove_bid(bid_id);
                    Ok(Effect::Matched(m))
                },
                None => Ok(Effect::NoMatch),
            }
        },
    }
}

/// The state machine a consensus engine drives: it owns the replicated
/// state and applies each delivered transaction in order.
#[derive(Debug)]
pub struct ConsensusApp {
    pub state: ExchangeState,
}

impl ConsensusApp {
    /// Wraps an existing state.
    pub fn new(state: ExchangeState) -> (r: ConsensusApp)
        ensures
            r.state == state,
    {
        ConsensusApp { state }
    }

    /// Consensus-facing entry point: applies one agreed transaction.
    /// Rejections are returned as data for the caller to log; they never
    /// halt delivery.
    pub fn deliver(&mut self, tx: Transaction) -> (r: Result<Effect, ApplyError>)
        requires
            old(self).state.wf(),
        ensures
            final(self).state.wf(),
            apply_spec(old(self).state, final(self).state, tx, r),
    {
        apply(&mut self.state, tx)
    }
}

/// Nonce monotonicity: after a transaction with nonce `n` from a signer
/// is accepted and charged, a second transaction from the same signer
/// passes the nonce check exactly when it carries `n + 1` (and the
/// counter has room); in particular re-using `n` or skipping ahead is
/// rejected.
pub proof fn lemma_nonce_monotonicity(
    pre: Ledger,
    post: Ledger,
    tx1: Transaction,
    tx2: Transaction,
)
    requires
        accepts(pre, tx1),
        charged(pre, post, tx_addr(tx1), tx_fee(tx1)),
        tx_signer(tx2) == tx_signer(tx1),
    ensures
        tx_nonce(tx2) != tx_nonce(tx1) + 1 ==> !nonce_ok(post, tx2),
        tx_nonce(tx2) == tx_nonce(tx1) + 1 && tx_nonce(tx2) < u64::MAX ==> nonce_ok(post, tx2),
{
}

/// Fee solvency: a transaction is accepted only when the signer's
/// balance covers its fee, and charging moves the balance to exactly the
/// old balance minus the fee — balances never go below zero.
pub proof fn lemma_fee_solvency(pre: Ledger, post: Ledger, tx: Transaction)
    requires
        accepts(pre, tx),
        charged(pre, post, tx_addr(tx), tx_fee(tx)),
    ensures
        tx_fee(tx) <= pre.spec_balance(tx_addr(tx)),
        post.spec_balance(tx_addr(tx)) == pre.spec_balance(tx_addr(tx)) - tx_fee(tx),
        post.spec_balance(tx_addr(tx)) >= 0,
{
}

/// A fee debit that would underflow the balance is rejected before any
/// mutation: the first failing check is fee solvency, and a rejected
/// transaction leaves the state untouched (see `lemma_rejected_is_noop`).
pub proof fn lemma_insufficient_fee_rejected(l: Ledger, tx: Transaction)
    requires
        tx_valid(tx),
        nonce_ok(l, tx),
        tx_fee(tx) > l.spec_balance(tx_addr(tx)),
    ensures
        rejection_of(l, tx) == Some(ApplyError::InsufficientFunds),
{
}

/// All-or-nothing delivery: a transaction that fails a pre-dispatch
/// check returns its error and leaves nonce, balance and inventory state
/// exactly as before the call — no partial effect is observable.
pub proof fn lemma_rejected_is_noop(
    pre: ExchangeState,
    post: ExchangeState,
    tx: Transaction,
    r: Result<Effect, ApplyError>,
)
    requires
        apply_spec(pre, post, tx, r),
        rejection_of(pre.ledger, tx) is Some,
    ensures
        r is Err,
        post.ledger.snap() == pre.ledger.snap(),
        post.inventory.snap() == pre.inventory.snap(),
{
}

} // verus!
