//! Price validation and cross-venue arbitrage detection.
//!
//! The library keeps a per-source record of the last accepted quote, rejects
//! implausible or volatile quotes, suspends a source after a run of rejected
//! quotes, and turns two validated quotes into an opportunity record when the
//! spread between them clears a threshold.

mod clock;
pub mod decimal;
pub mod price_validator;
pub mod models;
pub mod detector;
pub mod round;
