use arb_engine::decimal::Dec;
use arb_engine::detector::{detect, detect_at, net_profit, TradeParameters};
use arb_engine::models::TokenPair;
use arb_engine::price_validator::PriceValidator;
use arb_engine::round::{evaluate_round, RoundOutcome};
use rust_decimal::Decimal;

fn d(n: i64) -> Dec {
    Dec::new(n, 0)
}

fn params(bps: u16, gas: Dec, threshold: Dec) -> TradeParameters {
    TradeParameters {
        trade_amount: d(1000),
        max_slippage_bps: bps,
        estimated_gas_cost: gas,
        min_profit_threshold: threshold,
    }
}

fn val(a: Dec) -> Decimal {
    Decimal::from_i128_with_scale(a.mantissa(), a.scale())
}

fn same(a: Dec, b: Dec) -> bool {
    val(a) == val(b)
}

#[test]
fn reference_scenario() {
    let p = params(0, d(0), Dec::new(1, 2));
    let o = detect_at("WETH/USDC", "A", d(2000), "B", d(2300), &p, 42, 99).unwrap();
    assert_eq!(o.id, 42);
    assert_eq!(o.timestamp, 99);
    assert_eq!(o.token_pair, "WETH/USDC");
    assert_eq!(o.buy_dex, "A");
    assert_eq!(o.sell_dex, "B");
    assert!(same(o.buy_price, d(2000)));
    assert!(same(o.sell_price, d(2300)));
    assert!(same(o.price_difference_pct, Dec::new(15, 2)));
    assert_eq!(val(o.price_difference_pct).to_string(), "0.15");
    assert!(same(o.trade_amount, d(1000)));
    assert!(same(o.estimated_profit, d(150)));
    assert!(same(o.gas_cost, d(0)));
}

#[test]
fn sides_follow_prices() {
    let p = params(0, d(0), Dec::new(1, 2));
    let o = detect_at("P", "A", d(2300), "B", d(2000), &p, 1, 1).unwrap();
    assert_eq!(o.buy_dex, "B");
    assert_eq!(o.sell_dex, "A");
    assert!(same(o.buy_price, d(2000)));
    assert!(val(o.buy_price) < val(o.sell_price));
}

#[test]
fn below_threshold_gives_nothing() {
    for bps in [0u16, 100, 10000] {
        for gas in [0i64, 5, 1000] {
            let p = params(bps, d(gas), Dec::new(1, 1));
            assert!(detect_at("P", "A", d(2000), "B", d(2199), &p, 1, 1).is_none());
        }
    }
    // the threshold itself is enough
    let p = params(0, d(0), Dec::new(1, 1));
    assert!(detect_at("P", "A", d(2000), "B", d(2200), &p, 1, 1).is_some());
}

#[test]
fn equal_prices_give_nothing() {
    let p = params(0, d(0), d(0));
    assert!(detect_at("P", "A", d(2000), "B", Dec::new(20000, 1), &p, 1, 1).is_none());
}

#[test]
fn slippage_applies_to_both_legs() {
    let p = params(100, d(5), Dec::new(1, 2));
    let profit = net_profit(&p, d(2000), d(2300)).unwrap();
    // 1000 / 2000 * 0.99 * 2300 * 0.99 - 1000 - 5
    assert!(same(profit, Dec::new(122115, 3)));
}

#[test]
fn unprofitable_opportunity_is_still_reported() {
    let p = params(100, d(200), Dec::new(1, 2));
    let o = detect_at("P", "A", d(2000), "B", d(2100), &p, 1, 1).unwrap();
    // 0.5 * 0.99 * 2100 * 0.99 - 1000 - 200 = -170.895
    assert!(same(o.estimated_profit, Dec::new(-170895, 3)));
}

#[test]
fn detect_with_clock() {
    let p = params(0, d(0), Dec::new(1, 2));
    let o = detect("P", "A", d(2000), "B", d(2300), &p).unwrap();
    assert!(same(o.estimated_profit, d(150)));
    assert!(o.timestamp > 0);
}

#[test]
fn net_profit_overflow_is_none() {
    let p = TradeParameters {
        trade_amount: Dec::from_parts(79228162514264337593543950335, 0).unwrap(),
        max_slippage_bps: 0,
        estimated_gas_cost: d(0),
        min_profit_threshold: d(0),
    };
    assert!(net_profit(&p, Dec::new(1, 3), d(2)).is_none());
    assert!(net_profit(&p, d(0), d(2)).is_none());
}

fn pair() -> TokenPair {
    TokenPair {
        token0: "0xweth".to_string(),
        token1: "0xusdc".to_string(),
        symbol: "WETH/USDC".to_string(),
    }
}

#[test]
fn round_outcomes() {
    let mut v = PriceValidator::new();
    let p = params(0, d(0), Dec::new(1, 2));
    match evaluate_round(&mut v, &pair(), "Uniswap", d(2000), "SushiSwap", d(2300), &p, 7, 0) {
        RoundOutcome::Profitable(o) => {
            assert!(same(o.estimated_profit, d(150)));
            assert_eq!(o.token_pair, "WETH/USDC");
        }
        _ => panic!("expected a profitable opportunity"),
    }
    assert!(matches!(
        evaluate_round(&mut v, &pair(), "Uniswap", d(2000), "SushiSwap", d(2005), &p, 7, 0),
        RoundOutcome::NoOpportunity
    ));
    assert!(matches!(
        evaluate_round(&mut v, &pair(), "Uniswap", d(100), "SushiSwap", d(2005), &p, 7, 0),
        RoundOutcome::FirstRejected(_)
    ));
    assert!(matches!(
        evaluate_round(&mut v, &pair(), "Uniswap", d(2000), "SushiSwap", d(9000), &p, 7, 0),
        RoundOutcome::SecondRejected(_)
    ));
    let costly = params(0, d(500), Dec::new(1, 2));
    assert!(matches!(
        evaluate_round(&mut v, &pair(), "Uniswap", d(2000), "SushiSwap", d(2100), &costly, 7, 0),
        RoundOutcome::Unprofitable(_)
    ));
}

#[test]
fn poll_delay_depends_on_failure() {
    assert_eq!(arb_engine::round::next_poll_delay_secs(true, 30), 60);
    assert_eq!(arb_engine::round::next_poll_delay_secs(false, 30), 30);
}
