//! Time-windowed media extraction engine.
//!
//! The library validates requested time windows, chooses between a
//! single-segment fast path and a multi-segment path with synthetic gap
//! insertion, renders the exact argument lists and filter graph handed to the
//! external media tool, judges each invocation's outcome under an
//! all-or-nothing discipline, and assembles the resulting byte artifacts into
//! a response envelope.

pub mod assemble;
pub mod error;
pub mod outcome;
pub mod plan;
pub mod request;
pub mod text;
pub mod validate;
