//! Deterministic state-transition core of a decentralized advertising
//! exchange.
//!
//! Given a totally-ordered stream of signed transactions delivered by a
//! consensus layer, the library verifies authenticity, enforces replay
//! protection and fee solvency, mutates account balances and bid inventory,
//! and computes auction-to-bid matches, all deterministically: every honest
//! participant applying the same ordered stream reaches identical state.

pub mod applier;
pub mod codec;
pub mod crypto;
pub mod identity;
pub mod inventory;
pub mod ledger;
pub mod primitives;
pub mod settlement;
