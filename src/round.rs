//! The decision taken for one polling round, once both quotes have arrived:
//! validate both, and report what, if anything, should be recorded. Fetching
//! the quotes and storing the record are left to the caller.

use vstd::prelude::*;
use crate::decimal::{value_lt, Dec};
use crate::detector::{detect_at, detected, TradeParameters};
use crate::models::{ArbitrageOpportunity, TokenPair};
use crate::price_validator::{
    next_snapshots, outcome_is, verdict, PriceValidator, ValidationResult, Verdict,
};

verus! {

/// What one round decided.
#[derive(Clone, Debug)]
pub enum RoundOutcome {
    /// The first source's quote was not accepted.
    FirstRejected(ValidationResult),
    /// The first quote was accepted, the second source's quote was not.
    SecondRejected(ValidationResult),
    /// Both quotes were accepted; the spread did not clear the threshold.
    NoOpportunity,
    /// An opportunity whose net profit is zero or negative.
    Unprofitable(ArbitrageOpportunity),
    /// An opportunity with a positive net profit: the one worth recording.
    Profitable(ArbitrageOpportunity),
}

/// The profit is above zero.
pub open spec fn is_profitable(o: ArbitrageOpportunity) -> bool {
    value_lt((0int, 0nat), o.estimated_profit@)
}

/// Validates the quotes of `source_a` and then `source_b`, both at `now`,
/// and, when both are accepted, detects an opportunity between them with
/// identifier `id`.
pub fn evaluate_round(
    validator: &mut PriceValidator,
    pair: &TokenPair,
    source_a: &str,
    price_a: Dec,
    source_b: &str,
    price_b: Dec,
    params: &TradeParameters,
    id: u128,
    now: i64,
) -> (r: RoundOutcome)
    requires
        old(validator).wf(),
    ensures
        final(validator).wf(),
        final(validator).config() == old(validator).config(),
        ({
            let cfg = old(validator).config();
            let s0 = old(validator).snapshots();
            let s1 = next_snapshots(cfg, s0, source_a@, price_a, now);
            let both = verdict(cfg, s0, source_a@, price_a) is Valid && verdict(
                cfg,
                s1,
                source_b@,
                price_b,
            ) is Valid;
            &&& final(validator).snapshots() == next_snapshots(cfg, s1, source_b@, price_b, now)
            &&& !(verdict(cfg, s0, source_a@, price_a) is Valid) ==> (r matches RoundOutcome::FirstRejected(v)
                && outcome_is(v, cfg, s0, source_a@, price_a))
            &&& verdict(cfg, s0, source_a@, price_a) is Valid && !(verdict(
                cfg,
                s1,
                source_b@,
                price_b,
            ) is Valid) ==> (r matches RoundOutcome::SecondRejected(v) && outcome_is(
                v,
                cfg,
                s1,
                source_b@,
                price_b,
            ))
            &&& both ==> match r {
                RoundOutcome::NoOpportunity => detected(
                    None,
                    pair.symbol@,
                    source_a@,
                    price_a,
                    source_b@,
                    price_b,
                    *params,
                    id,
                    now,
                ),
                RoundOutcome::Unprofitable(o) => detected(
                    Some(o),
                    pair.symbol@,
                    source_a@,
                    price_a,
                    source_b@,
                    price_b,
                    *params,
                    id,
                    now,
                ) && !is_profitable(o),
                RoundOutcome::Profitable(o) => detected(
                    Some(o),
                    pair.symbol@,
                    source_a@,
                    price_a,
                    source_b@,
                    price_b,
                    *params,
                    id,
                    now,
                ) && is_profitable(o),
                _ => false,
            }
        }),
{
    let result_a = validator.validate_price_at(source_a, price_a, now);
    let result_b = validator.validate_price_at(source_b, price_b, now);
    if !result_a.is_valid() {
        return RoundOutcome::FirstRejected(result_a);
    }
    if !result_b.is_valid() {
        return RoundOutcome::SecondRejected(result_b);
    }
    match detect_at(pair.symbol.as_str(), source_a, price_a, source_b, price_b, params, id, now) {
        None => RoundOutcome::NoOpportunity,
        Some(o) => {
            if matches!(Dec::zero().compare(&o.estimated_profit), core::cmp::Ordering::Less) {
                RoundOutcome::Profitable(o)
            } else {
                RoundOutcome::Unprofitable(o)
            }
        },
    }
}

/// Seconds to wait after a failed round before trying again.
pub const RETRY_DELAY_SECS: u64 = 60;

/// Seconds to wait before the next round: the configured interval after a
/// round that completed, `RETRY_DELAY_SECS` after one that failed.
pub fn next_poll_delay_secs(round_failed: bool, check_interval_seconds: u64) -> (r: u64)
    ensures
        r == (if round_failed { RETRY_DELAY_SECS } else { check_interval_seconds }),
{
    if round_failed {
        RETRY_DELAY_SECS
    } else {
        check_interval_seconds
    }
}

} // verus!
