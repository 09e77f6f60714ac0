//! Records exchanged with the code around the library.

use vstd::prelude::*;
use crate::decimal::Dec;

verus! {

/// The two tokens of a pair and its display label (such as `WETH/USDC`).
#[derive(Clone, Debug)]
pub struct TokenPair {
    pub token0: String,
    pub token1: String,
    pub symbol: String,
}

/// A spread between two sources that cleared the threshold.
#[derive(Clone, Debug)]
pub struct ArbitrageOpportunity {
    /// A random 128-bit identifier (a version 4 UUID).
    pub id: u128,
    /// Detection time, in milliseconds since the epoch.
    pub timestamp: i64,
    pub token_pair: String,
    pub buy_dex: String,
    pub sell_dex: String,
    pub buy_price: Dec,
    pub sell_price: Dec,
    /// The spread, as a fraction of the buy price.
    pub price_difference_pct: Dec,
    pub trade_amount: Dec,
    /// Proceeds after slippage on both legs, less the amount and the gas cost.
    pub estimated_profit: Dec,
    pub gas_cost: Dec,
}

} // verus!
