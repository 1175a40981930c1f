//! A token-weighted governance engine: proposals gated by deposits, voting
//! weighted by stake, and the tally arithmetic that decides their outcome.

pub mod decimal;
pub mod key;
pub mod store;
pub mod text;
pub mod status;
pub mod error;
pub mod expiration;
pub mod threshold;
pub mod action;
pub mod proposal;
pub mod helpers;
pub mod ledger;
pub mod response;
pub mod msg;
pub mod state;
pub mod execute;
pub mod query;
pub mod laws;
pub mod audit;
pub mod stake;

use vstd::prelude::*;

verus! {

/// The most entries a listing returns, and the most tokens one update of the
/// token list may name.
pub const MAX_LIMIT: u32 = 30;

/// The number of entries a listing returns where no limit is asked for.
pub const DEFAULT_LIMIT: u32 = 10;

} // verus!
