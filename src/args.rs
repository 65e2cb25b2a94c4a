use vstd::prelude::*;

verus! {

/// One parsed tick. Prices and quantities are fixed-point numbers in the units
/// of `crate::ohlc::PRICE_SCALE`; timestamps are milliseconds since the epoch.
#[derive(Clone, Debug, PartialEq)]
pub struct PriceDataEntity {
    /// The event name
    pub event_name: String,
    /// The event category
    pub cat: u64,
    /// The order ticker
    pub ticker: String,
    /// The bid price
    pub bid_price: i64,
    /// The bid quantity
    pub bid_quantity: i64,
    /// The ask price
    pub ask_price: i64,
    /// The ask quantity
    pub ask_quantity: i64,
    /// The start timestamp of the interval
    pub timestamp_start: u64,
    /// The end timestamp of the interval
    pub timestamp_end: u64,
}

impl PriceDataEntity {
    /// An independent copy of this tick.
    pub fn copy(&self) -> (r: PriceDataEntity)
        ensures
            r == *self,
    {
        PriceDataEntity {
            event_name: self.event_name.clone(),
            cat: self.cat,
            ticker: self.ticker.clone(),
            bid_price: self.bid_price,
            bid_quantity: self.bid_quantity,
            ask_price: self.ask_price,
            ask_quantity: self.ask_quantity,
            timestamp_start: self.timestamp_start,
            timestamp_end: self.timestamp_end,
        }
    }
}

/// The command line of the runner: where to read ticks and where to write snapshots.
#[derive(Clone, Debug)]
pub struct RunnerArgs {
    /// Path to the data file to read
    pub in_file: String,
    /// Base name of the output file
    pub out_file: String,
}

} // verus!
