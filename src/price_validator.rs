//! Per-source price validation with a circuit breaker.
//!
//! Each source that has ever been validated owns one snapshot: the last
//! accepted price, the time it was accepted and the number of rejected
//! quotes since then. A quote is checked, in order, against the absolute
//! band, against the relative move since the last accepted price, and against
//! the source's breaker; the first failing check decides the outcome.

use vstd::prelude::*;
use crate::clock::now_millis;
use crate::decimal::{
    count_text, decimal_digits, decimal_text, decimal_text_2dp, difference_of, lemma_zero_dec,
    opt_view, pow10, product_of, quotient_of, value_eq, value_le, value_lt, zero_dec, Dec,
};

verus! {

/// Number of consecutive rejected quotes a source may accumulate; one more
/// trips its breaker.
pub const BREAKER_THRESHOLD: u32 = 5;

/// Milliseconds in a minute.
pub const MILLIS_PER_MINUTE: i64 = 60000;

/// Largest age limit, in minutes, whose length in milliseconds fits an `i64`.
pub const MAX_AGE_MINUTES: i64 = 153722867280912;

/// What the validator remembers of one source.
#[derive(Clone, Copy, Debug)]
pub struct PriceSnapshot {
    /// Last accepted price; zero when the source never had a price accepted.
    pub price: Dec,
    /// When the snapshot was last recorded, in milliseconds since the epoch.
    pub timestamp: i64,
    /// Quotes rejected since the last accepted one.
    pub consecutive_errors: u32,
}

/// The fixed policy of a validator.
#[derive(Clone, Copy, Debug)]
pub struct ValidatorConfig {
    pub min_price: Dec,
    pub max_price: Dec,
    /// Largest allowed relative move, as a fraction (0.15 is 15%).
    pub max_price_change_pct: Dec,
    /// Age, in milliseconds, beyond which a recorded price is stale.
    pub max_price_age_ms: i64,
}

/// Outcome of validating one quote.
#[derive(Clone, Debug)]
pub enum ValidationResult {
    Valid,
    Invalid(String),
    CircuitBreakerTripped(String),
}

/// The three kinds of outcome, without their messages.
pub enum Verdict {
    Valid,
    Invalid,
    Tripped,
}

/// Counts over all sources that a validator has seen.
#[derive(Clone, Copy, Debug)]
pub struct ValidationStats {
    pub total_dexes: usize,
    /// Sources with no rejected quote since their last accepted one.
    pub active_dexes: usize,
    pub circuit_breaker_tripped: usize,
    pub stale_prices: usize,
}

pub struct PriceValidator {
    config: ValidatorConfig,
    /// Source names, each at most once, in the order they were first seen.
    sources: Vec<String>,
    /// `snaps[i]` belongs to `sources[i]`.
    snaps: Vec<PriceSnapshot>,
    by_source: Ghost<Map<Seq<char>, PriceSnapshot>>,
}

// ---------------------------------------------------------------------------
// The rules, over plain values
// ---------------------------------------------------------------------------

/// The price lies in the configured band, both ends included.
pub open spec fn within_bounds(cfg: ValidatorConfig, price: Dec) -> bool {
    value_le(cfg.min_price@, price@) && value_le(price@, cfg.max_price@)
}

/// The magnitude of a decimal pair.
pub open spec fn abs_pair(d: (int, nat)) -> (int, nat) {
    (if d.0 < 0 { -d.0 } else { d.0 }, d.1)
}

/// `|price - last| / last`: zero for an unchanged price, otherwise as
/// `rust_decimal` computes it, `None` where a step overflows.
pub open spec fn change_ratio(price: Dec, last: Dec) -> Option<(int, nat)> {
    if value_eq(price@, last@) {
        Some((0int, 0nat))
    } else {
        match difference_of(price@, last@) {
            Some(d) => quotient_of(abs_pair(d), last@),
            None => None,
        }
    }
}

/// The move from `last` to `price` exceeds the allowed fraction; a move that
/// cannot be computed counts as too large.
pub open spec fn change_too_large(cfg: ValidatorConfig, price: Dec, last: Dec) -> bool {
    match change_ratio(price, last) {
        Some(r) => value_lt(cfg.max_price_change_pct@, r),
        None => true,
    }
}

/// The source has a non-zero accepted price to compare against.
pub open spec fn has_history(snaps: Map<Seq<char>, PriceSnapshot>, src: Seq<char>) -> bool {
    snaps.contains_key(src) && snaps[src].price@.0 != 0
}

/// The source's breaker is tripped.
pub open spec fn tripped_in(snaps: Map<Seq<char>, PriceSnapshot>, src: Seq<char>) -> bool {
    snaps.contains_key(src) && snaps[src].consecutive_errors > BREAKER_THRESHOLD
}

/// The verdict on `price` from `src`, checks in their fixed order.
pub open spec fn verdict(
    cfg: ValidatorConfig,
    snaps: Map<Seq<char>, PriceSnapshot>,
    src: Seq<char>,
    price: Dec,
) -> Verdict {
    if !within_bounds(cfg, price) {
        Verdict::Invalid
    } else if has_history(snaps, src) && change_too_large(cfg, price, snaps[src].price) {
        Verdict::Invalid
    } else if tripped_in(snaps, src) {
        Verdict::Tripped
    } else {
        Verdict::Valid
    }
}

/// One more rejected quote for `src`: its count goes up by one (it stays at
/// `u32::MAX` once there), and an unseen source gets a zero price.
pub open spec fn after_error(
    snaps: Map<Seq<char>, PriceSnapshot>,
    src: Seq<char>,
    now: i64,
) -> Map<Seq<char>, PriceSnapshot> {
    if snaps.contains_key(src) {
        let s = snaps[src];
        let n = s.consecutive_errors;
        snaps.insert(
            src,
            PriceSnapshot {
                price: s.price,
                timestamp: s.timestamp,
                consecutive_errors: if n < u32::MAX { (n + 1) as u32 } else { n },
            },
        )
    } else {
        snaps.insert(src, PriceSnapshot { price: zero_dec(), timestamp: now, consecutive_errors: 1 })
    }
}

/// The snapshots after validating `price` from `src` at time `now`.
pub open spec fn next_snapshots(
    cfg: ValidatorConfig,
    snaps: Map<Seq<char>, PriceSnapshot>,
    src: Seq<char>,
    price: Dec,
    now: i64,
) -> Map<Seq<char>, PriceSnapshot> {
    match verdict(cfg, snaps, src, price) {
        Verdict::Invalid => after_error(snaps, src, now),
        Verdict::Tripped => snaps,
        Verdict::Valid => snaps.insert(
            src,
            PriceSnapshot { price, timestamp: now, consecutive_errors: 0 },
        ),
    }
}

/// The snapshots after the count of `src` is cleared.
pub open spec fn after_reset(
    snaps: Map<Seq<char>, PriceSnapshot>,
    src: Seq<char>,
) -> Map<Seq<char>, PriceSnapshot> {
    if snaps.contains_key(src) {
        let s = snaps[src];
        snaps.insert(
            src,
            PriceSnapshot { price: s.price, timestamp: s.timestamp, consecutive_errors: 0 },
        )
    } else {
        snaps
    }
}

/// Message for a price outside the band.
pub open spec fn bounds_message(cfg: ValidatorConfig, price: Dec) -> Seq<char> {
    "Price "@ + decimal_text(price@) + " outside reasonable bounds ("@ + decimal_text(
        cfg.min_price@,
    ) + "-"@ + decimal_text(cfg.max_price@) + ")"@
}

/// ` (12.34%)`: the move from `last` to `price` in percent, or nothing where
/// it cannot be computed.
pub open spec fn percent_text(price: Dec, last: Dec) -> Seq<char> {
    match change_ratio(price, last) {
        Some(r) => match product_of(r, (100int, 0nat)) {
            Some(p) => " ("@ + decimal_text_2dp(p) + "%)"@,
            None => Seq::empty(),
        },
        None => Seq::empty(),
    }
}

/// Message for a move that is too large.
/// The move is given as a percentage with two decimals where it can be
/// computed (see `percent_text`), and left out where it cannot.
pub open spec fn change_message(src: Seq<char>, last: Dec, price: Dec) -> Seq<char> {
    "Large price change detected for "@ + src + percent_text(price, last) + ": "@ + decimal_text(last@) + " -> "@
        + decimal_text(price@)
}

/// Message for a source whose breaker is tripped.
pub open spec fn tripped_message(src: Seq<char>, errors: u32) -> Seq<char> {
    "Too many consecutive errors for "@ + src + " ("@ + decimal_digits(errors as nat) + ")"@
}

/// The full outcome, message included, of validating `price` from `src`.
pub open spec fn outcome_is(
    r: ValidationResult,
    cfg: ValidatorConfig,
    snaps: Map<Seq<char>, PriceSnapshot>,
    src: Seq<char>,
    price: Dec,
) -> bool {
    match verdict(cfg, snaps, src, price) {
        Verdict::Valid => r is Valid,
        Verdict::Invalid => r matches ValidationResult::Invalid(m) && m@ == (if !within_bounds(
            cfg,
            price,
        ) {
            bounds_message(cfg, price)
        } else {
            change_message(src, snaps[src].price, price)
        }),
        Verdict::Tripped => r matches ValidationResult::CircuitBreakerTripped(m) && m@
            == tripped_message(src, snaps[src].consecutive_errors),
    }
}

/// The snapshot was recorded more than `max_age_ms` before `now`.
pub open spec fn is_stale(s: PriceSnapshot, now: i64, max_age_ms: i64) -> bool {
    now - s.timestamp > max_age_ms
}

/// Sources with no rejected quote since their last accepted one.
pub open spec fn active_sources(snaps: Map<Seq<char>, PriceSnapshot>) -> Set<Seq<char>> {
    snaps.dom().filter(|k: Seq<char>| snaps[k].consecutive_errors == 0)
}

/// Sources whose breaker is tripped.
pub open spec fn tripped_sources(snaps: Map<Seq<char>, PriceSnapshot>) -> Set<Seq<char>> {
    snaps.dom().filter(|k: Seq<char>| tripped_in(snaps, k))
}

/// Sources whose snapshot is stale at `now`.
pub open spec fn stale_sources(
    snaps: Map<Seq<char>, PriceSnapshot>,
    now: i64,
    max_age_ms: i64,
) -> Set<Seq<char>> {
    snaps.dom().filter(|k: Seq<char>| is_stale(snaps[k], now, max_age_ms))
}

/// Number of snapshots in `s` that satisfy `f`.
spec fn count_where(s: Seq<PriceSnapshot>, f: spec_fn(PriceSnapshot) -> bool) -> nat
    decreases s.len(),
{
    if s.len() == 0 {
        0
    } else {
        count_where(s.drop_last(), f) + if f(s.last()) {
            1nat
        } else {
            0nat
        }
    }
}

/// With distinct `keys` whose snapshots in `m` are `vals`, the keys whose
/// snapshot satisfies `f` are as many as `count_where(vals, f)`.
proof fn lemma_count_keys(
    keys: Seq<Seq<char>>,
    vals: Seq<PriceSnapshot>,
    m: Map<Seq<char>, PriceSnapshot>,
    f: spec_fn(PriceSnapshot) -> bool,
    chosen: Set<Seq<char>>,
)
    requires
        keys.len() == vals.len(),
        keys.no_duplicates(),
        forall|i: int| 0 <= i < keys.len() ==> m.contains_key(keys[i]) && m[keys[i]] == vals[i],
        forall|k: Seq<char>| chosen.contains(k) <==> (keys.contains(k) && f(m[k])),
    ensures
        chosen.finite(),
        chosen.len() == count_where(vals, f),
    decreases keys.len(),
{
    if keys.len() == 0 {
        assert(chosen =~= Set::empty());
    } else {
        let n = keys.len() - 1;
        let last = keys[n];
        let kp = keys.drop_last();
        let rest = chosen.remove(last);
        assert forall|k: Seq<char>| rest.contains(k) <==> (kp.contains(k) && f(m[k])) by {
            if kp.contains(k) {
                let j = choose|j: int| 0 <= j < kp.len() && kp[j] == k;
                assert(keys[j] == k);
                assert(keys.contains(k));
                assert(keys[j] != keys[n]);
                assert(k != last);
            }
            if keys.contains(k) && k != last {
                let j = choose|j: int| 0 <= j < keys.len() && keys[j] == k;
                assert(j != n);
                assert(kp[j] == k);
                assert(kp.contains(k));
            }
        }
        assert(keys.contains(last)) by {
            assert(keys[n] == last);
        }
        let vp = vals.drop_last();
        assert(kp.no_duplicates()) by {
            assert forall|a: int, b: int|
                0 <= a < kp.len() && 0 <= b < kp.len() && a != b implies kp[a] != kp[b] by {
                assert(kp[a] == keys[a] && kp[b] == keys[b]);
            }
        }
        assert forall|i: int| #![trigger kp[i]] 0 <= i < kp.len() implies m.contains_key(kp[i])
            && m[kp[i]] == vp[i] by {
            assert(kp[i] == keys[i] && vp[i] == vals[i]);
        }
        lemma_count_keys(kp, vp, m, f, rest);
        assert(vals.drop_last() == vp && vals.last() == vals[n]);
        if f(vals[n]) {
            assert(chosen =~= rest.insert(last));
        } else {
            assert(chosen =~= rest);
        }
    }
}

impl ValidationResult {
    pub fn is_valid(&self) -> (r: bool)
        ensures
            r == (self is Valid),
    {
        match self {
            ValidationResult::Valid => true,
            _ => false,
        }
    }

    /// The message of a rejection; `None` for `Valid`.
    pub fn error_message(&self) -> (r: Option<&str>)
        ensures
            match self {
                ValidationResult::Valid => r is None,
                ValidationResult::Invalid(m) => r matches Some(s) && s@ == m@,
                ValidationResult::CircuitBreakerTripped(m) => r matches Some(s) && s@ == m@,
            },
    {
        match self {
            ValidationResult::Valid => None,
            ValidationResult::Invalid(msg) => Some(msg.as_str()),
            ValidationResult::CircuitBreakerTripped(msg) => Some(msg.as_str()),
        }
    }
}

impl PriceValidator {
    /// The validator's policy.
    pub closed spec fn config(&self) -> ValidatorConfig {
        self.config
    }

    /// The snapshot of every source seen so far.
    pub closed spec fn snapshots(&self) -> Map<Seq<char>, PriceSnapshot> {
        self.by_source@
    }

    pub closed spec fn wf(&self) -> bool {
        &&& self.sources.len() == self.snaps.len()
        &&& forall|i: int, j: int|
            0 <= i < j < self.sources.len() ==> self.sources[i]@ != self.sources[j]@
        &&& forall|i: int|
            0 <= i < self.sources.len() ==> #[trigger] self.by_source@.contains_key(
                self.sources[i]@,
            ) && self.by_source@[self.sources[i]@] == self.snaps[i]
        &&& forall|k: Seq<char>|
            #[trigger] self.by_source@.contains_key(k) ==> exists|i: int|
                0 <= i < self.sources.len() && self.sources[i]@ == k
    }

    /// A validator with the default policy for WETH/USDC: prices from 500
    /// to 10000, moves of at most 15%, prices stale after five minutes.
    pub fn new() -> (r: Self)
        ensures
            r.wf(),
            r.config().min_price@ == (500int, 0nat),
            r.config().max_price@ == (10000int, 0nat),
            r.config().max_price_change_pct@ == (15int, 2nat),
            r.config().max_price_age_ms == 5 * MILLIS_PER_MINUTE,
            r.snapshots().is_empty(),
    {
        PriceValidator::with_bounds(Dec::new(500, 0), Dec::new(10000, 0), Dec::new(15, 2), 5)
    }

    /// A validator with the given band, largest relative move and age limit.
    pub fn with_bounds(
        min_price: Dec,
        max_price: Dec,
        max_price_change_pct: Dec,
        max_price_age_minutes: i64,
    ) -> (r: Self)
        requires
            -MAX_AGE_MINUTES <= max_price_age_minutes <= MAX_AGE_MINUTES,
        ensures
            r.wf(),
            r.config() == (ValidatorConfig {
                min_price,
                max_price,
                max_price_change_pct,
                max_price_age_ms: (max_price_age_minutes * MILLIS_PER_MINUTE) as i64,
            }),
            r.snapshots().is_empty(),
    {
        PriceValidator {
            config: ValidatorConfig {
                min_price,
                max_price,
                max_price_change_pct,
                max_price_age_ms: max_price_age_minutes * MILLIS_PER_MINUTE,
            },
            sources: Vec::new(),
            snaps: Vec::new(),
            by_source: Ghost(Map::empty()),
        }
    }

    /// Position of `source` among the sources seen.
    fn find(&self, source: &String) -> (r: Option<usize>)
        requires
            self.wf(),
        ensures
            match r {
                Some(i) => i < self.sources.len() && self.sources[i as int]@ == source@
                    && self.snapshots().contains_key(source@) && self.snapshots()[source@]
                    == self.snaps[i as int],
                None => !self.snapshots().contains_key(source@),
            },
    {
        let mut i: usize = 0;
        while i < self.sources.len()
            invariant
                self.wf(),
                i <= self.sources.len(),
                forall|j: int| 0 <= j < i ==> self.sources[j]@ != source@,
            decreases self.sources.len() - i,
        {
            if self.sources[i] == *source {
                return Some(i);
            }
            i = i + 1;
        }
        None
    }

    /// Whether `price` lies in the band.
    fn check_absolute_bounds(&self, price: Dec) -> (r: bool)
        ensures
            r == within_bounds(self.config, price),
    {
        let below = matches!(price.compare(&self.config.min_price), core::cmp::Ordering::Less);
        let above = matches!(price.compare(&self.config.max_price), core::cmp::Ordering::Greater);
        !below && !above
    }

    /// The message to reject `price` with, when it moved too far from `last`.
    fn check_price_change(&self, source: &String, last: Dec, price: Dec) -> (r: Option<String>)
        ensures
            r is Some == change_too_large(self.config, price, last),
            r matches Some(m) ==> m@ == change_message(source@, last, price),
    {
        let ratio = if matches!(price.compare(&last), core::cmp::Ordering::Equal) {
            Some(Dec::zero())
        } else {
            match price.checked_sub(&last) {
                Some(diff) => diff.abs().checked_div(&last),
                None => None,
            }
        };
        assert(opt_view(ratio) == change_ratio(price, last));
        let too_large = match ratio {
            Some(r) => matches!(
                self.config.max_price_change_pct.compare(&r),
                core::cmp::Ordering::Less
            ),
            None => true,
        };
        if too_large {
            let mut percent = String::new();
            if let Some(r) = ratio {
                if let Some(p) = r.checked_mul(&Dec::new(100, 0)) {
                    percent = " (".to_owned();
                    percent.append(p.to_text_2dp().as_str());
                    percent.append("%)");
                }
            }
            assert(percent@ == percent_text(price, last));
            let mut m = "Large price change detected for ".to_owned();
            m.append(source.as_str());
            m.append(percent.as_str());
            m.append(": ");
            m.append(last.to_text().as_str());
            m.append(" -> ");
            m.append(price.to_text().as_str());
            Some(m)
        } else {
            None
        }
    }

    /// Records an accepted price for the source at `idx` (or a new source).
    fn record_valid_price(&mut self, source: String, idx: Option<usize>, price: Dec, now: i64)
        requires
            old(self).wf(),
            match idx {
                Some(i) => i < old(self).sources.len() && old(self).sources[i as int]@ == source@,
                None => !old(self).snapshots().contains_key(source@),
            },
        ensures
            final(self).wf(),
            final(self).config == old(self).config,
            final(self).snapshots() == old(self).snapshots().insert(
                source@,
                PriceSnapshot { price, timestamp: now, consecutive_errors: 0 },
            ),
    {
        let snap = PriceSnapshot { price, timestamp: now, consecutive_errors: 0 };
        self.put(source, idx, snap);
    }

    /// Counts one more rejected quote for the source at `idx` (or a new
    /// source, which starts with a zero price).
    fn record_error(&mut self, source: String, idx: Option<usize>, now: i64)
        requires
            old(self).wf(),
            match idx {
                Some(i) => i < old(self).sources.len() && old(self).sources[i as int]@ == source@,
                None => !old(self).snapshots().contains_key(source@),
            },
        ensures
            final(self).wf(),
            final(self).config == old(self).config,
            final(self).snapshots() == after_error(old(self).snapshots(), source@, now),
    {
        match idx {
            Some(i) => {
                let s = self.snaps[i];
                let n = s.consecutive_errors;
                let snap = PriceSnapshot {
                    price: s.price,
                    timestamp: s.timestamp,
                    consecutive_errors: if n < u32::MAX { n + 1 } else { n },
                };
                self.put(source, idx, snap);
            },
            None => {
                let snap = PriceSnapshot {
                    price: Dec::zero(),
                    timestamp: now,
                    consecutive_errors: 1,
                };
                self.put(source, idx, snap);
            },
        }
    }

    /// Stores `snap` as the snapshot of `source`, found at `idx` or new.
    fn put(&mut self, source: String, idx: Option<usize>, snap: PriceSnapshot)
        requires
            old(self).wf(),
            match idx {
                Some(i) => i < old(self).sources.len() && old(self).sources[i as int]@ == source@,
                None => !old(self).snapshots().contains_key(source@),
            },
        ensures
            final(self).wf(),
            final(self).config == old(self).config,
            final(self).snapshots() == old(self).snapshots().insert(source@, snap),
            match idx {
                Some(i) => final(self).snaps@ == old(self).snaps@.update(i as int, snap),
                None => final(self).snaps@ == old(self).snaps@.push(snap),
            },
    {
        let ghost key = source@;
        match idx {
            Some(i) => {
                self.snaps.set(i, snap);
                self.by_source = Ghost(self.by_source@.insert(key, snap));
                assert forall|j: int| 0 <= j < self.sources.len() implies #[trigger]
                    self.by_source@.contains_key(self.sources[j]@) && self.by_source@[
                    self.sources[j]@] == self.snaps[j] by {
                    if j != i {
                        if j < i {
                            assert(self.sources[j]@ != self.sources[i as int]@);
                        } else {
                            assert(self.sources[i as int]@ != self.sources[j]@);
                        }
                    }
                }
                assert forall|k: Seq<char>| #[trigger]
                    self.by_source@.contains_key(k) implies exists|j: int|
                        0 <= j < self.sources.len() && self.sources[j]@ == k by {
                    if k != key {
                        assert(old(self).by_source@.contains_key(k));
                        let j = choose|j: int|
                            0 <= j < old(self).sources.len() && old(self).sources[j]@ == k;
                        assert(self.sources[j]@ == k);
                    } else {
                        assert(self.sources[i as int]@ == k);
                    }
                }
            },
            None => {
                proof {
                    assert forall|j: int| 0 <= j < self.sources.len() implies self.sources[j]@
                        != key by {
                        assert(old(self).by_source@.contains_key(self.sources[j]@));
                    }
                }
                self.sources.push(source);
                self.snaps.push(snap);
                self.by_source = Ghost(self.by_source@.insert(key, snap));
                assert forall|k: Seq<char>| #[trigger]
                    self.by_source@.contains_key(k) implies exists|j: int|
                        0 <= j < self.sources.len() && self.sources[j]@ == k by {
                    if k != key {
                        assert(old(self).by_source@.contains_key(k));
                        let j = choose|j: int|
                            0 <= j < old(self).sources.len() && old(self).sources[j]@ == k;
                        assert(self.sources[j]@ == k);
                    } else {
                        assert(self.sources[self.sources.len() - 1]@ == k);
                    }
                }
            },
        }
    }

    /// Validates a quote from `dex_name` at the current time.
    pub fn validate_price(&mut self, dex_name: &str, price: Dec) -> (r: ValidationResult)
        requires
            old(self).wf(),
        ensures
            final(self).wf(),
            final(self).config() == old(self).config(),
            exists|now: i64|
                final(self).snapshots() == next_snapshots(
                    old(self).config(),
                    old(self).snapshots(),
                    dex_name@,
                    price,
                    now,
                ),
            outcome_is(r, old(self).config(), old(self).snapshots(), dex_name@, price),
    {
        let now = now_millis();
        self.validate_price_at(dex_name, price, now)
    }

    /// Validates a quote from `dex_name` received at time `now`
    /// (milliseconds since the epoch).
    pub fn validate_price_at(&mut self, dex_name: &str, price: Dec, now: i64) -> (r:
        ValidationResult)
        requires
            old(self).wf(),
        ensures
            final(self).wf(),
            final(self).config() == old(self).config(),
            final(self).snapshots() == next_snapshots(
                old(self).config(),
                old(self).snapshots(),
                dex_name@,
                price,
                now,
            ),
            outcome_is(r, old(self).config(), old(self).snapshots(), dex_name@, price),
    {
        let source = dex_name.to_owned();
        let idx = self.find(&source);
        if !self.check_absolute_bounds(price) {
            let mut m = "Price ".to_owned();
            m.append(price.to_text().as_str());
            m.append(" outside reasonable bounds (");
            m.append(self.config.min_price.to_text().as_str());
            m.append("-");
            m.append(self.config.max_price.to_text().as_str());
            m.append(")");
            self.record_error(source, idx, now);
            return ValidationResult::Invalid(m);
        }
        if let Some(i) = idx {
            let last = self.snaps[i];
            if !last.price.is_zero() {
                if let Some(m) = self.check_price_change(&source, last.price, price) {
                    self.record_error(source, idx, now);
                    return ValidationResult::Invalid(m);
                }
            }
            if last.consecutive_errors > BREAKER_THRESHOLD {
                let mut m = "Too many consecutive errors for ".to_owned();
                m.append(source.as_str());
                m.append(" (");
                m.append(count_text(last.consecutive_errors).as_str());
                m.append(")");
                return ValidationResult::CircuitBreakerTripped(m);
            }
        }
        self.record_valid_price(source, idx, price, now);
        ValidationResult::Valid
    }

    /// The last accepted price of a source and when it was recorded.
    pub fn get_last_price(&self, dex_name: &str) -> (r: Option<(Dec, i64)>)
        requires
            self.wf(),
        ensures
            match r {
                Some((p, t)) => self.snapshots().contains_key(dex_name@) && p
                    == self.snapshots()[dex_name@].price && t
                    == self.snapshots()[dex_name@].timestamp,
                None => !self.snapshots().contains_key(dex_name@),
            },
    {
        let source = dex_name.to_owned();
        match self.find(&source) {
            Some(i) => Some((self.snaps[i].price, self.snaps[i].timestamp)),
            None => None,
        }
    }

    /// Whether the source has more than `BREAKER_THRESHOLD` rejected quotes
    /// since its last accepted one.
    pub fn is_circuit_breaker_tripped(&self, dex_name: &str) -> (r: bool)
        requires
            self.wf(),
        ensures
            r == tripped_in(self.snapshots(), dex_name@),
    {
        let source = dex_name.to_owned();
        match self.find(&source) {
            Some(i) => self.snaps[i].consecutive_errors > BREAKER_THRESHOLD,
            None => false,
        }
    }

    /// Clears the rejected-quote count of a source, keeping its price and
    /// timestamp.
    pub fn reset_error_count(&mut self, dex_name: &str)
        requires
            old(self).wf(),
        ensures
            final(self).wf(),
            final(self).config() == old(self).config(),
            final(self).snapshots() == after_reset(old(self).snapshots(), dex_name@),
    {
        let source = dex_name.to_owned();
        let idx = self.find(&source);
        if let Some(i) = idx {
            let s = self.snaps[i];
            let snap = PriceSnapshot {
                price: s.price,
                timestamp: s.timestamp,
                consecutive_errors: 0,
            };
            self.put(source, idx, snap);
        }
    }

    /// Counts over all sources seen, with staleness judged now.
    pub fn get_stats(&self) -> (r: ValidationStats)
        requires
            self.wf(),
        ensures
            r.total_dexes == self.snapshots().dom().len(),
            r.active_dexes == active_sources(self.snapshots()).len(),
            r.circuit_breaker_tripped == tripped_sources(self.snapshots()).len(),
            exists|now: i64|
                r.stale_prices == stale_sources(
                    self.snapshots(),
                    now,
                    self.config().max_price_age_ms,
                ).len(),
    {
        let now = now_millis();
        self.get_stats_at(now)
    }

    /// Counts over all sources seen, with staleness judged at `now`.
    pub fn get_stats_at(&self, now: i64) -> (r: ValidationStats)
        requires
            self.wf(),
        ensures
            r.total_dexes == self.snapshots().dom().len(),
            r.active_dexes == active_sources(self.snapshots()).len(),
            r.circuit_breaker_tripped == tripped_sources(self.snapshots()).len(),
            r.stale_prices == stale_sources(
                self.snapshots(),
                now,
                self.config().max_price_age_ms,
            ).len(),
    {
        let ghost fa = |s: PriceSnapshot| s.consecutive_errors == 0;
        let ghost ft = |s: PriceSnapshot| s.consecutive_errors > BREAKER_THRESHOLD;
        let ghost max_age = self.config.max_price_age_ms;
        let ghost fs = |s: PriceSnapshot| is_stale(s, now, max_age);
        let mut stats = ValidationStats {
            total_dexes: self.snaps.len(),
            active_dexes: 0,
            circuit_breaker_tripped: 0,
            stale_prices: 0,
        };
        let mut i: usize = 0;
        while i < self.snaps.len()
            invariant
                i <= self.snaps.len(),
                stats.total_dexes == self.snaps.len(),
                stats.active_dexes == count_where(self.snaps@.take(i as int), fa),
                stats.circuit_breaker_tripped == count_where(self.snaps@.take(i as int), ft),
                stats.stale_prices == count_where(self.snaps@.take(i as int), fs),
                stats.active_dexes <= i,
                stats.circuit_breaker_tripped <= i,
                stats.stale_prices <= i,
                max_age == self.config.max_price_age_ms,
                fa == (|s: PriceSnapshot| s.consecutive_errors == 0),
                ft == (|s: PriceSnapshot| s.consecutive_errors > BREAKER_THRESHOLD),
                fs == (|s: PriceSnapshot| is_stale(s, now, max_age)),
            decreases self.snaps.len() - i,
        {
            let s = self.snaps[i];
            proof {
                assert(self.snaps@.take(i + 1).drop_last() =~= self.snaps@.take(i as int));
                assert(self.snaps@.take(i + 1).last() == s);
            }
            if s.consecutive_errors == 0 {
                stats.active_dexes = stats.active_dexes + 1;
            }
            if s.consecutive_errors > BREAKER_THRESHOLD {
                stats.circuit_breaker_tripped = stats.circuit_breaker_tripped + 1;
            }
            if (now as i128) - (s.timestamp as i128) > self.config.max_price_age_ms as i128 {
                stats.stale_prices = stats.stale_prices + 1;
            }
            i = i + 1;
        }
        proof {
            let m = self.by_source@;
            let keys = self.sources@.map_values(|x: String| x@);
            let vals = self.snaps@;
            assert(self.snaps@.take(self.snaps.len() as int) =~= vals);
            assert forall|k: Seq<char>| m.contains_key(k) <==> keys.contains(k) by {
                if m.contains_key(k) {
                    let j = choose|j: int| 0 <= j < self.sources.len() && self.sources[j]@ == k;
                    assert(keys[j] == k);
                }
                if keys.contains(k) {
                    let j = choose|j: int| 0 <= j < keys.len() && keys[j] == k;
                    assert(self.sources[j]@ == k);
                }
            }
            assert(keys.no_duplicates()) by {
                assert forall|a: int, b: int|
                    0 <= a < keys.len() && 0 <= b < keys.len() && a != b implies keys[a]
                    != keys[b] by {
                    if a < b {
                        assert(self.sources[a]@ != self.sources[b]@);
                    } else {
                        assert(self.sources[b]@ != self.sources[a]@);
                    }
                }
            }
            assert forall|j: int| 0 <= j < keys.len() implies m.contains_key(keys[j]) && m[keys[j]]
                == vals[j] by {
                assert(keys[j] == self.sources[j]@);
            }
            lemma_count_keys(keys, vals, m, fa, active_sources(m));
            lemma_count_keys(keys, vals, m, ft, tripped_sources(m));
            lemma_count_keys(keys, vals, m, fs, stale_sources(m, now, max_age));
            keys.unique_seq_to_set();
            assert(m.dom() =~= keys.to_set());
        }
        stats
    }

    /// Whether the snapshot of `dex_name` was recorded more than the
    /// configured age before `now`; `false` for an unseen source.
    pub fn is_stale_at(&self, dex_name: &str, now: i64) -> (r: bool)
        requires
            self.wf(),
        ensures
            r == (self.snapshots().contains_key(dex_name@) && is_stale(
                self.snapshots()[dex_name@],
                now,
                self.config().max_price_age_ms,
            )),
    {
        let source = dex_name.to_owned();
        match self.find(&source) {
            Some(i) => (now as i128) - (self.snaps[i].timestamp as i128)
                > self.config.max_price_age_ms as i128,
            None => false,
        }
    }
}

// ---------------------------------------------------------------------------
// Laws of the validator
// ---------------------------------------------------------------------------

/// The snapshots after validating `prices[i]` at `times[i]`, one after the
/// other, all from `src`.
pub open spec fn replay(
    cfg: ValidatorConfig,
    snaps: Map<Seq<char>, PriceSnapshot>,
    src: Seq<char>,
    prices: Seq<Dec>,
    times: Seq<i64>,
) -> Map<Seq<char>, PriceSnapshot>
    decreases prices.len(),
{
    if prices.len() == 0 {
        snaps
    } else {
        let n = prices.len() - 1;
        next_snapshots(
            cfg,
            replay(cfg, snaps, src, prices.take(n), times.take(n)),
            src,
            prices[n],
            times[n],
        )
    }
}

/// Every validation in the run was rejected as `Invalid`.
pub open spec fn all_rejected(
    cfg: ValidatorConfig,
    snaps: Map<Seq<char>, PriceSnapshot>,
    src: Seq<char>,
    prices: Seq<Dec>,
    times: Seq<i64>,
) -> bool
    decreases prices.len(),
{
    if prices.len() == 0 {
        true
    } else {
        let n = prices.len() - 1;
        all_rejected(cfg, snaps, src, prices.take(n), times.take(n)) && verdict(
            cfg,
            replay(cfg, snaps, src, prices.take(n), times.take(n)),
            src,
            prices[n],
        ) is Invalid
    }
}

/// A first quote from a source, inside the band, is accepted and recorded.
pub proof fn lemma_first_quote_accepted(
    cfg: ValidatorConfig,
    snaps: Map<Seq<char>, PriceSnapshot>,
    src: Seq<char>,
    price: Dec,
    now: i64,
)
    requires
        !snaps.contains_key(src),
        within_bounds(cfg, price),
    ensures
        verdict(cfg, snaps, src, price) is Valid,
        next_snapshots(cfg, snaps, src, price, now)[src] == (PriceSnapshot {
            price,
            timestamp: now,
            consecutive_errors: 0,
        }),
{
}

/// A quote outside the band is rejected: the source's count goes up by one,
/// its stored price and time stay, and no other source changes.
pub proof fn lemma_out_of_band_rejected(
    cfg: ValidatorConfig,
    snaps: Map<Seq<char>, PriceSnapshot>,
    src: Seq<char>,
    price: Dec,
    now: i64,
)
    requires
        !within_bounds(cfg, price),
        snaps.contains_key(src) ==> snaps[src].consecutive_errors < u32::MAX,
    ensures
        verdict(cfg, snaps, src, price) is Invalid,
        ({
            let next = next_snapshots(cfg, snaps, src, price, now);
            &&& next.contains_key(src)
            &&& snaps.contains_key(src) ==> next[src].price == snaps[src].price
                && next[src].timestamp == snaps[src].timestamp && next[src].consecutive_errors
                == snaps[src].consecutive_errors + 1
            &&& !snaps.contains_key(src) ==> next[src].price@.0 == 0
                && next[src].consecutive_errors == 1
            &&& next.remove(src) == snaps.remove(src)
        }),
{
    lemma_zero_dec();
    let next = next_snapshots(cfg, snaps, src, price, now);
    assert(next.remove(src) =~= snaps.remove(src));
}

/// After a price `p0` is accepted, a next price `p1` that moved too far from
/// it is rejected, and one that did not (and lies in the band) is accepted
/// and replaces it.
pub proof fn lemma_change_rule(
    cfg: ValidatorConfig,
    snaps: Map<Seq<char>, PriceSnapshot>,
    src: Seq<char>,
    p0: Dec,
    t0: i64,
    p1: Dec,
    t1: i64,
)
    requires
        verdict(cfg, snaps, src, p0) is Valid,
        p0@.0 != 0,
    ensures
        ({
            let after_p0 = next_snapshots(cfg, snaps, src, p0, t0);
            &&& change_too_large(cfg, p1, p0) ==> verdict(cfg, after_p0, src, p1) is Invalid
            &&& !change_too_large(cfg, p1, p0) && within_bounds(cfg, p1) ==> verdict(
                cfg,
                after_p0,
                src,
                p1,
            ) is Valid && next_snapshots(cfg, after_p0, src, p1, t1)[src].price == p1
        }),
{
}

/// A run of rejected validations leaves at least that many errors counted.
proof fn lemma_errors_accumulate(
    cfg: ValidatorConfig,
    snaps: Map<Seq<char>, PriceSnapshot>,
    src: Seq<char>,
    prices: Seq<Dec>,
    times: Seq<i64>,
)
    requires
        all_rejected(cfg, snaps, src, prices, times),
        prices.len() <= u32::MAX,
    ensures
        prices.len() > 0 ==> replay(cfg, snaps, src, prices, times).contains_key(src) && replay(
            cfg,
            snaps,
            src,
            prices,
            times,
        )[src].consecutive_errors >= prices.len(),
    decreases prices.len(),
{
    if prices.len() > 0 {
        let n = prices.len() - 1;
        lemma_errors_accumulate(cfg, snaps, src, prices.take(n), times.take(n));
    }
}

/// After `BREAKER_THRESHOLD + 1` rejected validations in a row, the source's
/// breaker is tripped.
pub proof fn lemma_breaker_trips(
    cfg: ValidatorConfig,
    snaps: Map<Seq<char>, PriceSnapshot>,
    src: Seq<char>,
    prices: Seq<Dec>,
    times: Seq<i64>,
)
    requires
        prices.len() == BREAKER_THRESHOLD + 1,
        times.len() == prices.len(),
        all_rejected(cfg, snaps, src, prices, times),
    ensures
        tripped_in(replay(cfg, snaps, src, prices, times), src),
{
    lemma_errors_accumulate(cfg, snaps, src, prices, times);
}

/// After a reset the breaker is clear, and the next price that passes the
/// band and move checks is accepted and recorded.
pub proof fn lemma_reset_then_accept(
    cfg: ValidatorConfig,
    snaps: Map<Seq<char>, PriceSnapshot>,
    src: Seq<char>,
    price: Dec,
    now: i64,
)
    requires
        within_bounds(cfg, price),
        !(has_history(snaps, src) && change_too_large(cfg, price, snaps[src].price)),
    ensures
        !tripped_in(after_reset(snaps, src), src),
        verdict(cfg, after_reset(snaps, src), src, price) is Valid,
        next_snapshots(cfg, after_reset(snaps, src), src, price, now)[src] == (PriceSnapshot {
            price,
            timestamp: now,
            consecutive_errors: 0,
        }),
{
}

/// Validating an accepted price again at the same time is accepted again,
/// leaves the snapshots as they were and counts no error (for a
/// non-negative allowed move).
pub proof fn lemma_repeat_valid(
    cfg: ValidatorConfig,
    snaps: Map<Seq<char>, PriceSnapshot>,
    src: Seq<char>,
    price: Dec,
    now: i64,
)
    requires
        verdict(cfg, snaps, src, price) is Valid,
        cfg.max_price_change_pct@.0 >= 0,
    ensures
        ({
            let once = next_snapshots(cfg, snaps, src, price, now);
            &&& verdict(cfg, once, src, price) is Valid
            &&& next_snapshots(cfg, once, src, price, now) == once
            &&& once[src].consecutive_errors == 0
        }),
{
    let once = next_snapshots(cfg, snaps, src, price, now);
    assert(pow10(0) == 1);
    assert(change_ratio(price, price) == Some((0int, 0nat)));
    let pct = cfg.max_price_change_pct@;
    assert(pct.0 * pow10(0) == pct.0);
    assert(0 * pow10(pct.1) == 0);
    assert(!value_lt(pct, (0int, 0nat)));
    assert(!change_too_large(cfg, price, price));
    assert(once.insert(src, once[src]) =~= once);
}

} // verus!
