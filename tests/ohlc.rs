use ohlc_processor::actor::OHLCActor;
use ohlc_processor::args::PriceDataEntity;
use ohlc_processor::error::Error;
use ohlc_processor::ohlc::{OHLCState, RollingOHLC, PRICE_SCALE};
use ohlc_processor::processor::OHLCProcessor;

fn tick(ticker: &str, ask_price: i64, timestamp_start: u64) -> PriceDataEntity {
    PriceDataEntity {
        event_name: "bookTicker".to_string(),
        cat: 1875301568520,
        ticker: ticker.to_string(),
        bid_price: ask_price - 100,
        bid_quantity: 226654300000,
        ask_price,
        ask_quantity: 75762500000,
        timestamp_start,
        timestamp_end: timestamp_start + 5,
    }
}

fn json(r: &RollingOHLC) -> String {
    String::from_utf8(r.to_json()).unwrap()
}

#[test]
fn test_ohlc_state() {
    let ticker = "BTCUSD".to_string();
    let time_frame = 1 * 3600 * 1000; //1 hour in millis
    let mut state = OHLCState::new(time_frame);
    state.add_price_timestamp(&ticker, 10 * PRICE_SCALE, 1604263400000);
    state.add_price_timestamp(&ticker, 12_500_000, 1604263460000);
    state.add_price_timestamp(&ticker, 11 * PRICE_SCALE, 1604263520000);
    let ohlcv = state.get_current_ohlcv();
    assert_eq!(ohlcv.open, 10 * PRICE_SCALE);
    assert_eq!(ohlcv.high, 12_500_000);
    assert_eq!(ohlcv.low, 10 * PRICE_SCALE);
    assert_eq!(ohlcv.close, 11 * PRICE_SCALE);
    assert_eq!(ohlcv.timestamp_start, 1604263400000);
    assert_eq!(ohlcv.timestamp_end, 1604263520000);

    state.add_price_timestamp(&ticker, 15 * PRICE_SCALE, 1604263580000);
    let ohlcv = state.get_current_ohlcv();
    assert_eq!(ohlcv.open, 10 * PRICE_SCALE);
    assert_eq!(ohlcv.high, 15 * PRICE_SCALE);
    assert_eq!(ohlcv.low, 10 * PRICE_SCALE);
    assert_eq!(ohlcv.close, 15 * PRICE_SCALE);
    assert_eq!(ohlcv.timestamp_start, 1604263400000);
    assert_eq!(ohlcv.timestamp_end, 1604263580000);
}

#[test]
fn test_rolling_ohlc_serialization() {
    let assert_serialized = r#"{"symbol":"TURBOUSDT","open":"101.300000","high":"208.900000","low":77.7,"close":"89.700000","timestamp":1662022800010}"#;
    let rolling_ohlc = RollingOHLC {
        ticker: Some("TURBOUSDT".to_string()),
        open: 101_300_000,
        high: 208_900_000,
        low: 77_700_000,
        close: 89_700_000,
        timestamp_end: 1662022800010,
        timestamp_start: 1662022800005,
    };
    let serialized_ohlc = json(&rolling_ohlc);
    assert_eq!(assert_serialized, serialized_ohlc);
}

#[test]
fn window_evicts_ticks_older_than_the_frame() {
    let mut state = OHLCState::new(60_000);
    state.add_price_timestamp("ETHUSD", 50 * PRICE_SCALE, 1_000_000);
    state.add_price_timestamp("ETHUSD", 20 * PRICE_SCALE, 1_030_000);
    state.add_price_timestamp("ETHUSD", 30 * PRICE_SCALE, 1_070_000);
    let ohlcv = state.get_current_ohlcv();
    assert_eq!(ohlcv.open, 20 * PRICE_SCALE);
    assert_eq!(ohlcv.high, 30 * PRICE_SCALE);
    assert_eq!(ohlcv.low, 20 * PRICE_SCALE);
    assert_eq!(ohlcv.close, 30 * PRICE_SCALE);
    assert_eq!(ohlcv.timestamp_start, 1_030_000);
    assert_eq!(ohlcv.timestamp_end, 1_070_000);
    // the history itself is kept whole
    assert_eq!(state.prices.len(), 3);
    assert_eq!(state.timestamps.len(), 3);
}

#[test]
fn window_boundary_is_exclusive() {
    let mut state = OHLCState::new(1000);
    state.add_price_timestamp("X", 5, 2000);
    state.add_price_timestamp("X", 7, 3000);
    let ohlcv = state.get_current_ohlcv();
    // 2000 is not above 3000 - 1000, so it has left the window
    assert_eq!(ohlcv.open, 7);
    assert_eq!(ohlcv.low, 7);
    assert_eq!(ohlcv.timestamp_start, 3000);
}

#[test]
fn small_timestamp_does_not_wrap() {
    let mut state = OHLCState::new(3_600_000);
    state.add_price_timestamp("X", 4, 10);
    state.add_price_timestamp("X", 9, 20);
    let ohlcv = state.get_current_ohlcv();
    assert_eq!(ohlcv.open, 4);
    assert_eq!(ohlcv.high, 9);
    assert_eq!(ohlcv.low, 4);
    assert_eq!(ohlcv.timestamp_start, 10);
    assert_eq!(ohlcv.timestamp_end, 20);
}

#[test]
fn single_tick_window() {
    let mut state = OHLCState::new(300_000);
    state.add_price_timestamp("TURBOUSDT", 326_200, 1662022800005);
    let ohlcv = state.get_current_ohlcv();
    assert_eq!(ohlcv.ticker, Some("TURBOUSDT".to_string()));
    assert_eq!(ohlcv.open, 326_200);
    assert_eq!(ohlcv.high, 326_200);
    assert_eq!(ohlcv.low, 326_200);
    assert_eq!(ohlcv.close, 326_200);
    assert_eq!(ohlcv.timestamp_start, 1662022800005);
    assert_eq!(ohlcv.timestamp_end, 1662022800005);
}

#[test]
fn new_state_is_empty() {
    let state = OHLCState::new(42);
    assert_eq!(state.time_frame, 42);
    assert!(state.prices.is_empty());
    assert!(state.timestamps.is_empty());
    assert_eq!(state.get_current_ohlcv().ticker, None);
}

#[test]
fn negative_prices_aggregate() {
    let mut state = OHLCState::new(10);
    state.add_price_timestamp("S", -3, 100);
    state.add_price_timestamp("S", -8, 101);
    state.add_price_timestamp("S", 2, 102);
    let ohlcv = state.get_current_ohlcv();
    assert_eq!(ohlcv.open, -3);
    assert_eq!(ohlcv.high, 2);
    assert_eq!(ohlcv.low, -8);
    assert_eq!(ohlcv.close, 2);
}

#[test]
fn tickers_are_isolated() {
    let mut actor = OHLCActor::new(3_600_000);
    let a1 = actor.handle_message(tick("AAA", 10 * PRICE_SCALE, 1000));
    let b1 = actor.handle_message(tick("BBB", 99 * PRICE_SCALE, 2000));
    let a2 = actor.handle_message(tick("AAA", 12 * PRICE_SCALE, 3000));
    assert_eq!(a1.ticker, Some("AAA".to_string()));
    assert_eq!(b1.ticker, Some("BBB".to_string()));
    assert_eq!(b1.open, 99 * PRICE_SCALE);
    assert_eq!(b1.low, 99 * PRICE_SCALE);
    assert_eq!(b1.timestamp_start, 2000);
    assert_eq!(a2.open, 10 * PRICE_SCALE);
    assert_eq!(a2.high, 12 * PRICE_SCALE);
    assert_eq!(a2.low, 10 * PRICE_SCALE);
    assert_eq!(a2.close, 12 * PRICE_SCALE);
    assert_eq!(a2.timestamp_start, 1000);
    assert_eq!(a2.timestamp_end, 3000);
    assert_eq!(actor.tickers.len(), 2);
    assert_eq!(actor.states[1].prices, vec![99 * PRICE_SCALE]);
}

#[test]
fn pipeline_emits_one_snapshot_per_tick_in_order() {
    let ticks = vec![
        Some(tick("AAA", 10, 1000)),
        Some(tick("BBB", 20, 1001)),
        Some(tick("AAA", 30, 1002)),
        Some(tick("BBB", 5, 1003)),
    ];
    let processor = OHLCProcessor::new(300_000).load_prices(ticks);
    let out = processor.run().unwrap();
    assert_eq!(out.len(), 4);
    let tickers: Vec<String> = out.iter().map(|r| r.ticker.clone().unwrap()).collect();
    assert_eq!(tickers, vec!["AAA", "BBB", "AAA", "BBB"]);
    let closes: Vec<i64> = out.iter().map(|r| r.close).collect();
    assert_eq!(closes, vec![10, 20, 30, 5]);
    assert_eq!(out[2].low, 10);
    assert_eq!(out[2].high, 30);
    assert_eq!(out[3].high, 20);
    assert_eq!(out[3].low, 5);
}

#[test]
fn empty_input_is_missing_data() {
    let processor = OHLCProcessor::new(300_000);
    assert!(matches!(processor.run(), Err(Error::MissingPricesData)));
    let processor = OHLCProcessor::new(300_000).load_prices(vec![None, None]);
    assert!(processor.input_data.is_empty());
    assert!(matches!(processor.run(), Err(Error::MissingPricesData)));
}

#[test]
fn malformed_lines_are_dropped() {
    let parsed = vec![
        Some(tick("AAA", 1, 10)),
        None,
        Some(tick("BBB", 2, 11)),
        None,
        None,
        Some(tick("CCC", 3, 12)),
    ];
    let processor = OHLCProcessor::new(1000).load_prices(parsed);
    assert_eq!(processor.timeframe_millis, 1000);
    assert_eq!(processor.input_data.len(), 3);
    assert_eq!(processor.input_data[0], tick("AAA", 1, 10));
    assert_eq!(processor.input_data[1], tick("BBB", 2, 11));
    assert_eq!(processor.input_data[2], tick("CCC", 3, 12));
    assert_eq!(processor.run().unwrap().len(), 3);
}

#[test]
fn json_of_whole_and_negative_prices() {
    let r = RollingOHLC {
        ticker: Some("BTCUSD".to_string()),
        open: 10 * PRICE_SCALE,
        high: 0,
        low: -1_500_000,
        close: -250_000,
        timestamp_start: 0,
        timestamp_end: 0,
    };
    assert_eq!(
        json(&r),
        r#"{"symbol":"BTCUSD","open":"10.000000","high":"0.000000","low":-1.5,"close":"-0.250000","timestamp":0}"#
    );
}

#[test]
fn json_of_tiny_low_and_whole_low() {
    let mut r = RollingOHLC::default();
    r.low = 3;
    assert_eq!(
        json(&r),
        r#"{"symbol":null,"open":"0.000000","high":"0.000000","low":3e-6,"close":"0.000000","timestamp":0}"#
    );
    r.low = 12;
    assert!(json(&r).contains(r#""low":0.000012,"#));
    r.low = 10 * PRICE_SCALE;
    assert!(json(&r).contains(r#""low":10.0,"#));
    r.low = 0;
    assert!(json(&r).contains(r#""low":0.0,"#));
    r.low = i64::MIN;
    assert!(json(&r).contains(r#""low":-9223372036854.775808,"#));
}

#[test]
fn json_escapes_the_symbol() {
    let mut r = RollingOHLC::default();
    r.ticker = Some("a\"b\\c\n\u{1}é".to_string());
    r.timestamp_end = 1662022800010;
    let s = json(&r);
    assert!(s.starts_with(r#"{"symbol":"a\"b\\c\n\u0001é","open""#));
    assert!(s.ends_with(r#""timestamp":1662022800010}"#));
}

#[test]
fn json_of_small_and_fractional_prices() {
    let r = RollingOHLC {
        ticker: Some("ABC".to_string()),
        open: 1,
        high: 2_000_000,
        low: 123_456_789,
        close: -1,
        timestamp_start: 7,
        timestamp_end: 8,
    };
    let s = json(&r);
    assert_eq!(
        s,
        r#"{"symbol":"ABC","open":"0.000001","high":"2.000000","low":123.456789,"close":"-0.000001","timestamp":8}"#
    );
}
