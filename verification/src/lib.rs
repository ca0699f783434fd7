//! Remapping of a normalized control value into provider-specific
//! temperature ranges for generative-AI API calls.
//!
//! All temperatures and range endpoints are fixed-point numbers counted in
//! micro-units: `scaling::MICROS_PER_UNIT` micro-units make one unit of a
//! provider's temperature scale, so `700_000` stands for `0.7`.
//!
//! Two layers:
//! - [`scaling`]: a generic clamped linear remap between two ranges.
//! - [`scaler`]: a per-provider table of target ranges built on the same
//!   remap semantics, holding one normalized base value in `[0, 1]`.

pub mod scaler;
pub mod scaling;
