use arb_engine::decimal::Dec;
use arb_engine::detector::{detect_at, net_profit, TradeParameters};
use arb_engine::price_validator::PriceValidator;
use rust_decimal::Decimal;

fn val(a: Dec) -> Decimal {
    Decimal::from_i128_with_scale(a.mantissa(), a.scale())
}

#[test]
fn bounds_compare_across_scales() {
    let mut v = PriceValidator::with_bounds(Dec::new(15, 1), Dec::new(2, 0), Dec::new(1, 0), 5);
    assert!(v.validate_price_at("a", Dec::new(150, 2), 0).is_valid());
    assert!(v.validate_price_at("b", Dec::new(20000, 4), 0).is_valid());
    assert!(!v.validate_price_at("c", Dec::new(20001, 4), 0).is_valid());
    assert!(!v.validate_price_at("d", Dec::new(-2, 0), 0).is_valid());
    let r = v.validate_price_at("e", Dec::new(149, 2), 0);
    assert_eq!(r.error_message(), Some("Price 1.49 outside reasonable bounds (1.5-2)"));
}

#[test]
fn spread_is_a_rounded_quotient() {
    let p = TradeParameters {
        trade_amount: Dec::new(1, 0),
        max_slippage_bps: 0,
        estimated_gas_cost: Dec::new(0, 0),
        min_profit_threshold: Dec::new(0, 0),
    };
    let o = detect_at("P", "A", Dec::new(3, 0), "B", Dec::new(4, 0), &p, 1, 1).unwrap();
    assert_eq!(val(o.price_difference_pct).to_string(), "0.3333333333333333333333333333");
    // 1/3 * 4 - 1
    assert_eq!(val(o.estimated_profit).to_string(), "0.3333333333333333333333333332");
}

#[test]
fn division_by_zero_price_gives_no_profit() {
    let p = TradeParameters {
        trade_amount: Dec::new(1000, 0),
        max_slippage_bps: 0,
        estimated_gas_cost: Dec::new(0, 0),
        min_profit_threshold: Dec::new(0, 0),
    };
    assert!(net_profit(&p, Dec::zero(), Dec::new(2, 0)).is_none());
    assert!(detect_at("P", "A", Dec::zero(), "B", Dec::new(2, 0), &p, 1, 1).is_none());
}

#[test]
fn parts_and_magnitude() {
    assert!(Dec::from_parts(79228162514264337593543950336, 0).is_none());
    assert!(Dec::from_parts(-79228162514264337593543950336, 0).is_none());
    assert!(Dec::from_parts(1, 29).is_none());
    let x = Dec::from_parts(-12345, 2).unwrap();
    assert_eq!(x.mantissa(), -12345);
    assert_eq!(x.scale(), 2);
    assert_eq!(val(x).to_string(), "-123.45");
    let y = x.abs();
    assert_eq!(y.mantissa(), 12345);
    assert_eq!(y.scale(), 2);
    assert!(Dec::zero().is_zero());
    assert!(!x.is_zero());
}
