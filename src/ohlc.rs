use vstd::prelude::*;

verus! {

/// Prices are fixed-point numbers: one unit of currency is this many price units.
pub const PRICE_SCALE: i64 = 1_000_000;

/// Largest price in a non-empty sequence.
pub open spec fn seq_max(s: Seq<i64>) -> i64
    decreases s.len(),
{
    if s.len() <= 1 {
        s[0]
    } else {
        let m = seq_max(s.drop_last());
        if s.last() > m { s.last() } else { m }
    }
}

/// Smallest price in a non-empty sequence.
pub open spec fn seq_min(s: Seq<i64>) -> i64
    decreases s.len(),
{
    if s.len() <= 1 {
        s[0]
    } else {
        let m = seq_min(s.drop_last());
        if s.last() < m { s.last() } else { m }
    }
}

/// `s` is where the window begins in `ts` for the lower bound `bound`: the first
/// position whose timestamp is above `bound`, or 0 when there is none.
pub open spec fn is_window_start(ts: Seq<u64>, bound: int, s: int) -> bool {
    ||| (0 <= s < ts.len() && ts[s] > bound && forall|j: int| 0 <= j < s ==> ts[j] <= bound)
    ||| (s == 0 && forall|j: int| 0 <= j < ts.len() ==> ts[j] <= bound)
}

/// Where the window that ends at the newest timestamp of `ts` begins, for a
/// window `frame` milliseconds long. The bound is taken in signed arithmetic, so
/// it never wraps below zero.
pub open spec fn window_start(ts: Seq<u64>, frame: u64) -> int {
    choose|s: int| #[trigger] is_window_start(ts, ts.last() as int - frame as int, s)
}

/// The window start is unique.
pub proof fn lemma_window_start_unique(ts: Seq<u64>, bound: int, s1: int, s2: int)
    requires
        is_window_start(ts, bound, s1),
        is_window_start(ts, bound, s2),
    ensures
        s1 == s2,
{
}

/// Timestamps that never decrease in arrival order.
pub open spec fn non_decreasing(ts: Seq<u64>) -> bool {
    forall|i: int, j: int| 0 <= i <= j < ts.len() ==> ts[i] <= ts[j]
}

/// Eviction: with a window of positive length and timestamps in arrival order,
/// an entry whose timestamp lies more than `frame` before the newest one comes
/// before the window start, so its price takes no part in open, high or low.
pub proof fn lemma_window_evicts_old(ts: Seq<u64>, frame: u64, j: int)
    requires
        frame > 0,
        non_decreasing(ts),
        0 <= j < ts.len(),
        ts.last() - ts[j] > frame,
    ensures
        j < window_start(ts, frame),
{
    let bound = ts.last() as int - frame as int;
    let s = window_start(ts, frame);
    let n = ts.len() - 1;
    assert(ts[n] > bound);
    assert(is_window_start(ts, bound, s)) by {
        assert(!(forall|i: int| 0 <= i < ts.len() ==> ts[i] <= bound));
        assert(exists|i: int| 0 <= i < ts.len() && ts[i] > bound);
        let w = lemma_first_above(ts, bound);
        assert(is_window_start(ts, bound, w));
    }
    assert(ts[s] > bound);
    if s <= j {
        assert(ts[s] <= ts[j]);
    }
}

/// Some position of `ts` is the first whose timestamp is above `bound`.
proof fn lemma_first_above(ts: Seq<u64>, bound: int) -> (w: int)
    requires
        exists|i: int| 0 <= i < ts.len() && ts[i] > bound,
    ensures
        0 <= w < ts.len(),
        ts[w] > bound,
        forall|j: int| 0 <= j < w ==> ts[j] <= bound,
    decreases ts.len(),
{
    let p = ts.drop_last();
    if exists|i: int| 0 <= i < p.len() && p[i] > bound {
        let w = lemma_first_above(p, bound);
        assert(forall|j: int| 0 <= j < w ==> p[j] == ts[j]);
        w
    } else {
        assert(forall|j: int| 0 <= j < p.len() ==> p[j] == ts[j]);
        ts.len() - 1
    }
}

/// A window of one entry: the first tick of a ticker gives a snapshot whose
/// open, high, low and close are its price and whose window starts and ends at
/// its timestamp.
pub proof fn lemma_single_tick_window(
    r: RollingOHLC,
    ticker: Seq<char>,
    price: i64,
    timestamp: u64,
    frame: u64,
)
    requires
        r.describes(ticker, seq![price], seq![timestamp], frame),
    ensures
        r.open == price,
        r.high == price,
        r.low == price,
        r.close == price,
        r.timestamp_start == timestamp,
        r.timestamp_end == timestamp,
{
    let ts = seq![timestamp];
    let bound = timestamp as int - frame as int;
    assert(is_window_start(ts, bound, 0));
    lemma_window_start_unique(ts, bound, window_start(ts, frame), 0);
    assert(seq![price].subrange(0, 1) =~= seq![price]);
}

/// A snapshot is fixed by its ticker's history and the window length alone: two
/// snapshots that describe the same history hold the same values. With the
/// contract of `OHLCActor::handle_message`, which changes no other ticker's
/// history, ticks of other tickers never change what a ticker's snapshot holds.
pub proof fn lemma_snapshot_determined_by_history(
    r1: RollingOHLC,
    r2: RollingOHLC,
    ticker: Seq<char>,
    prices: Seq<i64>,
    ts: Seq<u64>,
    frame: u64,
)
    requires
        r1.describes(ticker, prices, ts, frame),
        r2.describes(ticker, prices, ts, frame),
    ensures
        r1.ticker is Some && r2.ticker is Some,
        r1.ticker->Some_0@ == r2.ticker->Some_0@,
        r1.open == r2.open,
        r1.high == r2.high,
        r1.low == r2.low,
        r1.close == r2.close,
        r1.timestamp_start == r2.timestamp_start,
        r1.timestamp_end == r2.timestamp_end,
{
}

/// One snapshot of the aggregate over the current window of one ticker.
/// Prices are in price units (see `PRICE_SCALE`), timestamps in milliseconds.
#[derive(Clone, Debug)]
pub struct RollingOHLC {
    pub ticker: Option<String>,
    pub open: i64,
    pub high: i64,
    pub low: i64,
    pub close: i64,
    pub timestamp_start: u64,
    pub timestamp_end: u64,
}

impl Default for RollingOHLC {
    fn default() -> (r: Self)
        ensures
            r.ticker is None,
            r.open == 0 && r.high == 0 && r.low == 0 && r.close == 0,
            r.timestamp_start == 0 && r.timestamp_end == 0,
    {
        RollingOHLC {
            ticker: None,
            open: 0,
            high: 0,
            low: 0,
            close: 0,
            timestamp_start: 0,
            timestamp_end: 0,
        }
    }
}

impl RollingOHLC {
    /// This snapshot is the aggregate of `ticker` over the window that ends at the
    /// newest entry of the history `prices` / `ts`.
    pub open spec fn describes(
        &self,
        ticker: Seq<char>,
        prices: Seq<i64>,
        ts: Seq<u64>,
        frame: u64,
    ) -> bool {
        let s = window_start(ts, frame);
        let e = ts.len() - 1;
        &&& self.ticker is Some
        &&& self.ticker->Some_0@ == ticker
        &&& self.open == prices[s]
        &&& self.close == prices[e]
        &&& self.high == seq_max(prices.subrange(s, ts.len() as int))
        &&& self.low == seq_min(prices.subrange(s, ts.len() as int))
        &&& self.timestamp_start == ts[s]
        &&& self.timestamp_end == ts[e]
    }

    /// An independent copy of this snapshot.
    pub fn copy(&self) -> (r: RollingOHLC)
        ensures
            r == *self,
    {
        let ticker = match &self.ticker {
            Some(t) => Some(t.clone()),
            None => None,
        };
        RollingOHLC {
            ticker,
            open: self.open,
            high: self.high,
            low: self.low,
            close: self.close,
            timestamp_start: self.timestamp_start,
            timestamp_end: self.timestamp_end,
        }
    }
}

/// The price and timestamp history of one ticker and its latest aggregate.
#[derive(Clone, Debug)]
pub struct OHLCState {
    pub prices: Vec<i64>,
    pub timestamps: Vec<u64>,
    pub time_frame: u64,
    pub current_rolling_ohlc: RollingOHLC,
}

impl OHLCState {
    /// Prices and timestamps pair up one to one.
    pub open spec fn wf(&self) -> bool {
        self.prices@.len() == self.timestamps@.len()
    }

    /// Constructs an empty state whose window is `time_frame` milliseconds long.
    pub fn new(time_frame: u64) -> (r: Self)
        ensures
            r.wf(),
            r.prices@.len() == 0,
            r.timestamps@.len() == 0,
            r.time_frame == time_frame,
            r.current_rolling_ohlc.ticker is None,
            r.current_rolling_ohlc.open == 0 && r.current_rolling_ohlc.high == 0,
            r.current_rolling_ohlc.low == 0 && r.current_rolling_ohlc.close == 0,
            r.current_rolling_ohlc.timestamp_start == 0,
            r.current_rolling_ohlc.timestamp_end == 0,
    {
        OHLCState {
            prices: Vec::new(),
            timestamps: Vec::new(),
            time_frame,
            current_rolling_ohlc: RollingOHLC::default(),
        }
    }

    /// Appends `price` at `timestamp` to the history and recomputes the aggregate
    /// over the window that ends at this tick: it begins at the first entry whose
    /// timestamp is above `timestamp - time_frame`, or at the first entry of all
    /// when there is none.
    pub fn add_price_timestamp(&mut self, ticker: &str, price: i64, timestamp: u64)
        requires
            old(self).wf(),
        ensures
            final(self).wf(),
            final(self).prices@ == old(self).prices@.push(price),
            final(self).timestamps@ == old(self).timestamps@.push(timestamp),
            final(self).time_frame == old(self).time_frame,
            final(self).current_rolling_ohlc.describes(
                ticker@,
                final(self).prices@,
                final(self).timestamps@,
                final(self).time_frame,
            ),
    {
        self.prices.push(price);
        self.timestamps.push(timestamp);
        let n = self.timestamps.len();
        let frame = self.time_frame;
        let ghost bound = timestamp as int - frame as int;

        let mut i: usize = 0;
        while i < n && !(timestamp < frame || self.timestamps[i] > timestamp - frame)
            invariant
                self.wf(),
                i <= n,
                n == self.timestamps@.len(),
                bound == timestamp as int - frame as int,
                forall|j: int| 0 <= j < i ==> self.timestamps@[j] <= bound,
            decreases n - i,
        {
            i = i + 1;
        }
        let start: usize = if i < n { i } else { 0 };
        proof {
            let ts = self.timestamps@;
            assert(ts.last() == timestamp);
            assert(is_window_start(ts, bound, start as int));
            let c = window_start(ts, frame);
            lemma_window_start_unique(ts, bound, c, start as int);
        }

        let mut high = self.prices[start];
        let mut low = high;
        let mut k: usize = start + 1;
        while k < n
            invariant
                self.wf(),
                start < k <= n,
                n == self.prices@.len(),
                high == seq_max(self.prices@.subrange(start as int, k as int)),
                low == seq_min(self.prices@.subrange(start as int, k as int)),
            decreases n - k,
        {
            let p = self.prices[k];
            proof {
                let w = self.prices@.subrange(start as int, k + 1);
                assert(w.drop_last() =~= self.prices@.subrange(start as int, k as int));
            }
            if p > high {
                high = p;
            }
            if p < low {
                low = p;
            }
            k = k + 1;
        }

        self.current_rolling_ohlc = RollingOHLC {
            ticker: Some(ticker.to_owned()),
            open: self.prices[start],
            high,
            low,
            close: self.prices[n - 1],
            timestamp_start: self.timestamps[start],
            timestamp_end: self.timestamps[n - 1],
        };
    }

    /// A copy of the most recently computed aggregate.
    pub fn get_current_ohlcv(&self) -> (r: RollingOHLC)
        ensures
            r == self.current_rolling_ohlc,
    {
        self.current_rolling_ohlc.copy()
    }
}

} // verus!
