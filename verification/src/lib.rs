//! A verified bitcoin transaction engine for custodial rune and bitcoin
//! transfers: per-address custody of unspent outputs with smallest-first
//! extraction and restoration, fee-convergent draft assembly for plain, rune
//! and combined transfers, the commit/reveal taproot protocol that etches a
//! new rune, and the pure parts of signing orchestration. Chain I/O and the
//! threshold-signing oracle live outside, behind a small set of trusted
//! declarations.

pub mod types;
pub mod bytes;
pub mod combined;
pub mod etch;
pub mod interface;
pub mod laws;
pub mod ledger;
pub mod prize;
pub mod prize_pool;
pub mod inscription;
pub mod rune_transfer;
pub mod runestone;
pub mod script;
pub mod signer;
pub mod transaction;
pub mod txn_handler;
pub mod utxo_manager;

use vstd::prelude::*;

verus! {

/// Minimum satoshi value a change output must carry to be emitted at all;
/// smaller remainders are forfeited to the fee.
pub const DUST_THRESHOLD: u64 = 1_000;

/// Default satoshi value attached to a rune-bearing output so it stays spendable.
pub const DEFAULT_POSTAGE: u64 = 10_000;

} // verus!
