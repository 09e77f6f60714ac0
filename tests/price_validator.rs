use arb_engine::decimal::Dec;
use arb_engine::price_validator::{PriceValidator, ValidationResult};

fn d(n: i64) -> Dec {
    Dec::new(n, 0)
}

#[test]
fn test_price_bounds() {
    let mut validator = PriceValidator::new();

    let result = validator.validate_price("test_dex", d(2000));
    assert!(result.is_valid());

    let result = validator.validate_price("test_dex", d(100));
    assert!(!result.is_valid());

    let result = validator.validate_price("test_dex", d(15000));
    assert!(!result.is_valid());
}

#[test]
fn test_price_change_validation() {
    let mut validator = PriceValidator::new();

    let result = validator.validate_price("test_dex", d(2000));
    assert!(result.is_valid());

    let result = validator.validate_price("test_dex", d(2100));
    assert!(result.is_valid());

    let result = validator.validate_price("test_dex", d(3500));
    assert!(!result.is_valid());
}

#[test]
fn test_circuit_breaker() {
    let mut validator = PriceValidator::new();

    for _ in 0..6 {
        let _ = validator.validate_price("test_dex", d(100));
    }

    assert!(validator.is_circuit_breaker_tripped("test_dex"));

    validator.reset_error_count("test_dex");
    assert!(!validator.is_circuit_breaker_tripped("test_dex"));
}

#[test]
fn first_quote_in_band_is_recorded() {
    let mut v = PriceValidator::new();
    assert!(v.validate_price_at("a", d(500), 7).is_valid());
    let (p, t) = v.get_last_price("a").unwrap();
    assert_eq!(p.mantissa(), 500);
    assert_eq!(t, 7);
    let mut v = PriceValidator::new();
    assert!(v.validate_price_at("a", d(10000), 7).is_valid());
    assert!(v.get_last_price("b").is_none());
}

#[test]
fn out_of_band_counts_error_and_keeps_price() {
    let mut v = PriceValidator::new();
    assert!(v.validate_price_at("a", d(2000), 1).is_valid());
    let r = v.validate_price_at("a", d(499), 2);
    assert!(matches!(r, ValidationResult::Invalid(_)));
    assert_eq!(
        r.error_message(),
        Some("Price 499 outside reasonable bounds (500-10000)")
    );
    let (p, t) = v.get_last_price("a").unwrap();
    assert_eq!(p.mantissa(), 2000);
    assert_eq!(t, 1);
    let stats = v.get_stats_at(1);
    assert_eq!(stats.total_dexes, 1);
    assert_eq!(stats.active_dexes, 0);
}

#[test]
fn first_quote_out_of_band_creates_zero_snapshot() {
    let mut v = PriceValidator::new();
    let r = v.validate_price_at("a", d(10001), 3);
    assert!(!r.is_valid());
    let (p, t) = v.get_last_price("a").unwrap();
    assert!(p.is_zero());
    assert_eq!(t, 3);
    // a zero price is no history: any move is allowed next
    assert!(v.validate_price_at("a", d(9000), 4).is_valid());
}

#[test]
fn change_limit_is_inclusive() {
    let mut v = PriceValidator::new();
    assert!(v.validate_price_at("a", d(2000), 0).is_valid());
    // exactly 15%
    assert!(v.validate_price_at("a", d(2300), 0).is_valid());
    let (p, _) = v.get_last_price("a").unwrap();
    assert_eq!(p.mantissa(), 2300);
    // just above 15% of 2300 (345)
    let r = v.validate_price_at("a", d(2646), 0);
    assert_eq!(
        r.error_message(),
        Some("Large price change detected for a (15.04%): 2300 -> 2646")
    );
    let (p, _) = v.get_last_price("a").unwrap();
    assert_eq!(p.mantissa(), 2300);
    // downward moves count too
    assert!(!v.validate_price_at("a", d(1954), 0).is_valid());
    assert!(v.validate_price_at("a", d(1955), 0).is_valid());
}

#[test]
fn breaker_trips_after_six_rejections_and_resets() {
    let mut v = PriceValidator::new();
    assert!(v.validate_price_at("a", d(2000), 0).is_valid());
    for _ in 0..5 {
        assert!(!v.validate_price_at("a", d(1), 0).is_valid());
    }
    assert!(!v.is_circuit_breaker_tripped("a"));
    // with five errors a good price is still accepted
    assert!(v.validate_price_at("a", d(2000), 0).is_valid());
    for _ in 0..6 {
        assert!(matches!(
            v.validate_price_at("a", d(1), 0),
            ValidationResult::Invalid(_)
        ));
    }
    assert!(v.is_circuit_breaker_tripped("a"));
    let r = v.validate_price_at("a", d(2000), 0);
    assert!(matches!(r, ValidationResult::CircuitBreakerTripped(_)));
    assert_eq!(r.error_message(), Some("Too many consecutive errors for a (6)"));
    assert_eq!(v.get_stats_at(0).circuit_breaker_tripped, 1);
    v.reset_error_count("a");
    assert!(!v.is_circuit_breaker_tripped("a"));
    assert!(v.validate_price_at("a", d(2001), 0).is_valid());
    assert_eq!(v.get_stats_at(0).active_dexes, 1);
}

#[test]
fn repeated_valid_quote_stays_valid() {
    let mut v = PriceValidator::new();
    assert!(v.validate_price_at("a", d(2500), 9).is_valid());
    assert!(v.validate_price_at("a", d(2500), 9).is_valid());
    assert_eq!(v.get_stats_at(9).active_dexes, 1);
    assert!(!v.is_circuit_breaker_tripped("a"));
}

#[test]
fn sources_are_independent() {
    let mut v = PriceValidator::new();
    assert!(v.validate_price_at("a", d(2000), 0).is_valid());
    assert!(!v.validate_price_at("b", d(1), 0).is_valid());
    assert!(v.validate_price_at("b", d(5000), 0).is_valid());
    let stats = v.get_stats_at(0);
    assert_eq!(stats.total_dexes, 2);
    assert_eq!(stats.active_dexes, 2);
}

#[test]
fn stale_prices_are_counted() {
    let mut v = PriceValidator::with_bounds(d(1), d(100), Dec::new(5, 1), 1);
    assert!(v.validate_price_at("a", d(10), 0).is_valid());
    assert!(v.validate_price_at("b", d(10), 30_000).is_valid());
    assert!(!v.is_stale_at("a", 60_000));
    assert!(v.is_stale_at("a", 60_001));
    assert!(!v.is_stale_at("b", 60_001));
    assert!(!v.is_stale_at("c", 1_000_000));
    assert_eq!(v.get_stats_at(60_000).stale_prices, 0);
    assert_eq!(v.get_stats_at(60_001).stale_prices, 1);
    assert_eq!(v.get_stats_at(90_001).stale_prices, 2);
}

#[test]
fn custom_bounds_with_fractions() {
    let mut v = PriceValidator::with_bounds(Dec::new(5, 1), Dec::new(15, 1), Dec::new(1, 1), 5);
    assert!(v.validate_price_at("a", Dec::new(1000, 3), 0).is_valid());
    assert!(v.validate_price_at("a", Dec::new(11, 1), 0).is_valid());
    assert!(!v.validate_price_at("a", Dec::new(1211, 3), 0).is_valid());
    assert!(!v.validate_price_at("a", Dec::new(49, 2), 0).is_valid());
}

#[test]
fn valid_result_has_no_message() {
    assert!(ValidationResult::Valid.error_message().is_none());
    assert!(ValidationResult::Valid.is_valid());
    let r = ValidationResult::CircuitBreakerTripped("x".to_string());
    assert!(!r.is_valid());
    assert_eq!(r.error_message(), Some("x"));
}

#[test]
fn stats_count_each_source_once() {
    let mut v = PriceValidator::new();
    assert_eq!(v.get_stats_at(0).total_dexes, 0);
    assert!(!v.validate_price_at("a", d(1), 0).is_valid());
    assert!(!v.validate_price_at("a", d(1), 0).is_valid());
    assert_eq!(v.get_stats_at(0).total_dexes, 1);
    assert!(v.validate_price_at("b", d(2000), 0).is_valid());
    v.reset_error_count("c");
    let stats = v.get_stats_at(0);
    assert_eq!(stats.total_dexes, 2);
    assert_eq!(stats.active_dexes, 1);
    assert_eq!(stats.circuit_breaker_tripped, 0);
    assert!(v.get_stats().total_dexes == 2);
}

#[test]
fn tripped_message_carries_the_count() {
    let mut v = PriceValidator::new();
    for _ in 0..7 {
        let _ = v.validate_price_at("x", d(20000), 0);
    }
    let r = v.validate_price_at("x", d(2000), 0);
    assert_eq!(r.error_message(), Some("Too many consecutive errors for x (7)"));
}
