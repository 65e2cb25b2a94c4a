//! Rolling open/high/low/close aggregation over a trailing time window,
//! kept per ticker and fed one tick at a time.
pub mod actor;
pub mod args;
pub mod error;
pub mod ohlc;
pub mod output;
pub mod processor;
