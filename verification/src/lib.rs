//! Core of a tempo-synchronised gain effect: parameter ranges and
//! normalised-value conversions, per-sample smoothing, the decay-envelope
//! computation, block processing, and the control bridge that mediates
//! between a UI message stream and the parameter state.
//!
//! All quantities are fixed-point integers: normalised values are micro-units
//! in `[0, 1_000_000]`, decibel values are milli-decibels. The surrounding
//! host glue converts to and from floating point at the boundary.

pub mod bridge;
pub mod envelope;
pub mod params;
pub mod processor;
pub mod range;
pub mod smoother;
pub mod text;
