//! Core of a broker market-data pipeline: typed push-message events,
//! per-account order-book / quote-book / portfolio stores reconstructed
//! from incremental deltas, a stop-loss state machine per open position,
//! and a dynamic instrument-subscription planner.
pub mod api;
pub mod api_utils;
pub mod crypto_utils;
pub mod market_data;
pub mod observer;
pub mod processed_data;
pub mod trading_utils;

use vstd::prelude::*;

verus! {

/// Upper bound, in hundredths of a currency unit, on any price carried
/// by a wire message that the stores accept.
pub const PRICE_MAX: i64 = 1_000_000_000;

/// Bound on a position's profit and loss and on its stop price: the widest
/// price move times the largest quantity a wire message can carry.
pub const PNL_ABS_MAX: i64 = PRICE_MAX * 2_147_483_648;

} // verus!
