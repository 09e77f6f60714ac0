//! Turning two validated quotes into an opportunity record.
//!
//! The cheaper source is the buy side. The spread is `(sell - buy) / buy`;
//! below the threshold nothing is produced. Otherwise the trade amount buys
//! tokens at the buy price and sells them at the sell price, each leg
//! discounted by the slippage factor `1 - bps / 10000` (so the factor applies
//! twice, a deliberately conservative estimate), and the gas cost is
//! subtracted. The record is produced whatever the sign of that profit;
//! whether to act on it is the caller's decision.

use vstd::prelude::*;
use crate::clock::{fresh_id, now_millis};
use crate::decimal::{difference_of, opt_view, product_of, quotient_of, value_eq, value_lt, Dec};
use crate::models::ArbitrageOpportunity;

verus! {

/// The parameters of one detection.
#[derive(Clone, Copy, Debug)]
pub struct TradeParameters {
    /// Amount spent on the buy leg, in the quote currency.
    pub trade_amount: Dec,
    /// Expected slippage per leg, in basis points.
    pub max_slippage_bps: u16,
    pub estimated_gas_cost: Dec,
    /// Smallest spread, as a fraction, worth reporting.
    pub min_profit_threshold: Dec,
}

/// `1 - bps / 10000`, exactly.
pub open spec fn slippage_factor(bps: u16) -> (int, nat) {
    (10000 - bps, 4nat)
}

/// `(high - low) / low` as `rust_decimal` computes it.
pub open spec fn spread_of(low: Dec, high: Dec) -> Option<(int, nat)> {
    match difference_of(high@, low@) {
        Some(d) => quotient_of(d, low@),
        None => None,
    }
}

/// Net profit of buying at `buy` and selling at `sell`, as `rust_decimal`
/// computes it step by step; `None` where a step overflows.
pub open spec fn net_profit_of(params: TradeParameters, buy: Dec, sell: Dec) -> Option<(int, nat)> {
    let f = slippage_factor(params.max_slippage_bps);
    match quotient_of(params.trade_amount@, buy@) {
        None => None,
        Some(per_price) => match product_of(per_price, f) {
            None => None,
            Some(tokens) => match product_of(tokens, sell@) {
                None => None,
                Some(sale) => match product_of(sale, f) {
                    None => None,
                    Some(proceeds) => match difference_of(proceeds, params.trade_amount@) {
                        None => None,
                        Some(gross) => difference_of(gross, params.estimated_gas_cost@),
                    },
                },
            },
        },
    }
}

/// `a` is not dearer than `b`, so `a` is the buy side (for distinct
/// prices, `a` is the cheaper one).
pub open spec fn buys_from_first(price_a: Dec, price_b: Dec) -> bool {
    !value_lt(price_b@, price_a@)
}

/// `r` is what detection yields for the two quotes, with identifier `id`
/// and time `now`.
pub open spec fn detected(
    r: Option<ArbitrageOpportunity>,
    pair_label: Seq<char>,
    source_a: Seq<char>,
    price_a: Dec,
    source_b: Seq<char>,
    price_b: Dec,
    params: TradeParameters,
    id: u128,
    now: i64,
) -> bool {
    let a_buys = buys_from_first(price_a, price_b);
    let buy = if a_buys { price_a } else { price_b };
    let sell = if a_buys { price_b } else { price_a };
    let spread = spread_of(buy, sell);
    let profit = net_profit_of(params, buy, sell);
    if value_eq(price_a@, price_b@) || spread is None || value_lt(
        spread->0,
        params.min_profit_threshold@,
    ) || profit is None {
        r is None
    } else {
        r matches Some(o) && o.id == id && o.timestamp == now && o.token_pair@ == pair_label
            && o.buy_dex@ == (if a_buys { source_a } else { source_b }) && o.sell_dex@ == (
        if a_buys {
            source_b
        } else {
            source_a
        }) && o.buy_price == buy && o.sell_price == sell && o.price_difference_pct@
            == spread->0 && o.trade_amount == params.trade_amount && o.estimated_profit@
            == profit->0 && o.gas_cost == params.estimated_gas_cost
    }
}

/// The net profit of the trade described by `params` between `buy_price`
/// and `sell_price`, or `None` where the arithmetic overflows.
pub fn net_profit(params: &TradeParameters, buy_price: Dec, sell_price: Dec) -> (r: Option<Dec>)
    ensures
        opt_view(r) == net_profit_of(*params, buy_price, sell_price),
{
    let factor = Dec::new(10000 - params.max_slippage_bps as i64, 4);
    let per_price = match params.trade_amount.checked_div(&buy_price) {
        Some(v) => v,
        None => return None,
    };
    let tokens = match per_price.checked_mul(&factor) {
        Some(v) => v,
        None => return None,
    };
    let sale = match tokens.checked_mul(&sell_price) {
        Some(v) => v,
        None => return None,
    };
    let proceeds = match sale.checked_mul(&factor) {
        Some(v) => v,
        None => return None,
    };
    let gross = match proceeds.checked_sub(&params.trade_amount) {
        Some(v) => v,
        None => return None,
    };
    gross.checked_sub(&params.estimated_gas_cost)
}

/// Detection with a given identifier and time: the opportunity between
/// `source_a` quoting `price_a` and `source_b` quoting `price_b`, if the
/// spread clears the threshold.
pub fn detect_at(
    pair_label: &str,
    source_a: &str,
    price_a: Dec,
    source_b: &str,
    price_b: Dec,
    params: &TradeParameters,
    id: u128,
    now: i64,
) -> (r: Option<ArbitrageOpportunity>)
    ensures
        detected(r, pair_label@, source_a@, price_a, source_b@, price_b, *params, id, now),
        r matches Some(o) ==> value_lt(o.buy_price@, o.sell_price@),
        ({
            let buy = if buys_from_first(price_a, price_b) { price_a } else { price_b };
            let sell = if buys_from_first(price_a, price_b) { price_b } else { price_a };
            spread_of(buy, sell) matches Some(s) && value_lt(s, params.min_profit_threshold@)
                ==> r is None
        }),
{
    let order = price_a.compare(&price_b);
    if matches!(order, core::cmp::Ordering::Equal) {
        return None;
    }
    let a_buys = !matches!(order, core::cmp::Ordering::Greater);
    let (buy_dex, sell_dex, buy_price, sell_price) = if a_buys {
        (source_a, source_b, price_a, price_b)
    } else {
        (source_b, source_a, price_b, price_a)
    };
    let spread = match sell_price.checked_sub(&buy_price) {
        Some(d) => match d.checked_div(&buy_price) {
            Some(s) => s,
            None => return None,
        },
        None => return None,
    };
    if matches!(spread.compare(&params.min_profit_threshold), core::cmp::Ordering::Less) {
        return None;
    }
    let profit = match net_profit(params, buy_price, sell_price) {
        Some(p) => p,
        None => return None,
    };
    Some(
        ArbitrageOpportunity {
            id,
            timestamp: now,
            token_pair: pair_label.to_owned(),
            buy_dex: buy_dex.to_owned(),
            sell_dex: sell_dex.to_owned(),
            buy_price,
            sell_price,
            price_difference_pct: spread,
            trade_amount: params.trade_amount,
            estimated_profit: profit,
            gas_cost: params.estimated_gas_cost,
        },
    )
}

/// Detection with a fresh identifier and the current time.
pub fn detect(
    pair_label: &str,
    source_a: &str,
    price_a: Dec,
    source_b: &str,
    price_b: Dec,
    params: &TradeParameters,
) -> (r: Option<ArbitrageOpportunity>)
    ensures
        exists|id: u128, now: i64|
            detected(r, pair_label@, source_a@, price_a, source_b@, price_b, *params, id, now),
        r matches Some(o) ==> value_lt(o.buy_price@, o.sell_price@),
{
    let id = fresh_id();
    let now = now_millis();
    detect_at(pair_label, source_a, price_a, source_b, price_b, params, id, now)
}

} // verus!
