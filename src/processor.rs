use crate::actor::OHLCActor;
use crate::args::PriceDataEntity;
use crate::error::Error;
use crate::ohlc::RollingOHLC;
use vstd::prelude::*;

verus! {

/// The ask prices of the ticks of `ticks` whose ticker is `t`, in order.
pub open spec fn ticker_prices(ticks: Seq<PriceDataEntity>, t: Seq<char>) -> Seq<i64>
    decreases ticks.len(),
{
    if ticks.len() == 0 {
        Seq::empty()
    } else {
        let rest = ticker_prices(ticks.drop_last(), t);
        if ticks.last().ticker@ == t {
            rest.push(ticks.last().ask_price)
        } else {
            rest
        }
    }
}

/// The start timestamps of the ticks of `ticks` whose ticker is `t`, in order.
pub open spec fn ticker_timestamps(ticks: Seq<PriceDataEntity>, t: Seq<char>) -> Seq<u64>
    decreases ticks.len(),
{
    if ticks.len() == 0 {
        Seq::empty()
    } else {
        let rest = ticker_timestamps(ticks.drop_last(), t);
        if ticks.last().ticker@ == t {
            rest.push(ticks.last().timestamp_start)
        } else {
            rest
        }
    }
}

/// The snapshot that the pipeline emits for the tick at position `i` of `ticks`:
/// the aggregate of its ticker over the ticks up to and including it.
pub open spec fn emitted_for(
    r: RollingOHLC,
    ticks: Seq<PriceDataEntity>,
    i: int,
    frame: u64,
) -> bool {
    let t = ticks[i].ticker@;
    r.describes(
        t,
        ticker_prices(ticks.take(i + 1), t),
        ticker_timestamps(ticks.take(i + 1), t),
        frame,
    )
}

/// The ticks of `ticks` whose ticker is `t`, in order.
pub open spec fn only_ticker(ticks: Seq<PriceDataEntity>, t: Seq<char>) -> Seq<PriceDataEntity>
    decreases ticks.len(),
{
    if ticks.len() == 0 {
        Seq::empty()
    } else {
        let rest = only_ticker(ticks.drop_last(), t);
        if ticks.last().ticker@ == t {
            rest.push(ticks.last())
        } else {
            rest
        }
    }
}

/// Dropping the ticks of other tickers leaves the history of `t` as it is.
proof fn lemma_only_ticker_history(ticks: Seq<PriceDataEntity>, t: Seq<char>)
    ensures
        ticker_prices(only_ticker(ticks, t), t) == ticker_prices(ticks, t),
        ticker_timestamps(only_ticker(ticks, t), t) == ticker_timestamps(ticks, t),
    decreases ticks.len(),
{
    if ticks.len() > 0 {
        lemma_only_ticker_history(ticks.drop_last(), t);
        let rest = only_ticker(ticks.drop_last(), t);
        if ticks.last().ticker@ == t {
            assert(rest.push(ticks.last()).drop_last() =~= rest);
        }
    }
}

/// The ticks of `t` among the first `m` of `ticks` begin the ticks of `t` among all.
proof fn lemma_only_ticker_prefix(ticks: Seq<PriceDataEntity>, t: Seq<char>, m: int)
    requires
        0 <= m <= ticks.len(),
    ensures
        only_ticker(ticks.take(m), t).len() <= only_ticker(ticks, t).len(),
        only_ticker(ticks, t).take(only_ticker(ticks.take(m), t).len() as int) == only_ticker(
            ticks.take(m),
            t,
        ),
    decreases ticks.len(),
{
    if m == ticks.len() {
        assert(ticks.take(m) =~= ticks);
        assert(only_ticker(ticks, t).take(only_ticker(ticks, t).len() as int) =~= only_ticker(ticks, t));
    } else {
        let p = ticks.drop_last();
        assert(ticks.take(m) =~= p.take(m));
        lemma_only_ticker_prefix(p, t, m);
        let k = only_ticker(p.take(m), t).len() as int;
        assert(only_ticker(ticks, t).take(k) =~= only_ticker(p, t).take(k));
    }
}

/// Per-ticker isolation of the pipeline: the snapshot emitted for a tick of
/// ticker `t` is the one emitted for the same tick when the pipeline runs on the
/// ticks of `t` alone, where that tick stands at position `k`.
pub proof fn lemma_ticker_isolation(
    ticks: Seq<PriceDataEntity>,
    t: Seq<char>,
    i: int,
    r: RollingOHLC,
    frame: u64,
)
    requires
        0 <= i < ticks.len(),
        ticks[i].ticker@ == t,
    ensures
        ({
            let alone = only_ticker(ticks, t);
            let k = only_ticker(ticks.take(i), t).len() as int;
            &&& k < alone.len()
            &&& alone[k] == ticks[i]
            &&& emitted_for(r, ticks, i, frame) == emitted_for(r, alone, k, frame)
        }),
{
    let alone = only_ticker(ticks, t);
    let before = only_ticker(ticks.take(i), t);
    let k = before.len() as int;
    let upto = ticks.take(i + 1);
    assert(upto.drop_last() =~= ticks.take(i));
    assert(only_ticker(upto, t) == before.push(ticks[i]));
    lemma_only_ticker_prefix(ticks, t, i + 1);
    assert(alone.take(k + 1) == before.push(ticks[i]));
    assert(alone.take(k + 1)[k] == alone[k]);
    lemma_only_ticker_history(upto, t);
}

/// The records of the lines that parsed, in order.
pub open spec fn kept_records(lines: Seq<Option<PriceDataEntity>>) -> Seq<PriceDataEntity>
    decreases lines.len(),
{
    if lines.len() == 0 {
        Seq::empty()
    } else {
        let rest = kept_records(lines.drop_last());
        match lines.last() {
            Some(p) => rest.push(p),
            None => rest,
        }
    }
}

/// How many lines did not parse.
pub open spec fn malformed_count(lines: Seq<Option<PriceDataEntity>>) -> nat
    decreases lines.len(),
{
    if lines.len() == 0 {
        0
    } else {
        malformed_count(lines.drop_last()) + if lines.last() is None {
            1nat
        } else {
            0nat
        }
    }
}

/// Loading a batch of lines keeps one record per line that parsed and drops
/// every line that did not: with `m` malformed lines out of `n`, `n - m` records.
pub proof fn lemma_malformed_lines_dropped(lines: Seq<Option<PriceDataEntity>>)
    ensures
        kept_records(lines).len() + malformed_count(lines) == lines.len(),
    decreases lines.len(),
{
    if lines.len() > 0 {
        lemma_malformed_lines_dropped(lines.drop_last());
    }
}

/// A processor that streams the rolling aggregates of a batch of ticks for a
/// window of `timeframe_millis` milliseconds.
pub struct OHLCProcessor {
    pub timeframe_millis: u64,
    pub input_data: Vec<PriceDataEntity>,
}

impl OHLCProcessor {
    /// A processor with no tick loaded yet.
    pub fn new(timeframe_millis: u64) -> (r: Self)
        ensures
            r.timeframe_millis == timeframe_millis,
            r.input_data@.len() == 0,
    {
        OHLCProcessor { timeframe_millis, input_data: Vec::new() }
    }

    /// Loads the ticks of a batch of lines, given as the outcome of parsing each
    /// line: the lines that parsed are kept, in order, and the others dropped.
    pub fn load_prices(self, parsed: Vec<Option<PriceDataEntity>>) -> (r: Self)
        ensures
            r.timeframe_millis == self.timeframe_millis,
            r.input_data@ == kept_records(parsed@),
    {
        let mut input_data: Vec<PriceDataEntity> = Vec::new();
        let mut i: usize = 0;
        while i < parsed.len()
            invariant
                i <= parsed@.len(),
                input_data@ == kept_records(parsed@.take(i as int)),
            decreases parsed@.len() - i,
        {
            proof {
                assert(parsed@.take(i + 1).drop_last() =~= parsed@.take(i as int));
            }
            match &parsed[i] {
                Some(p) => input_data.push(p.copy()),
                None => {},
            }
            i = i + 1;
        }
        proof {
            assert(parsed@.take(parsed@.len() as int) =~= parsed@);
        }
        OHLCProcessor { timeframe_millis: self.timeframe_millis, input_data }
    }

    /// Runs the loaded ticks, one at a time and in order, through an aggregation
    /// stage and returns the snapshot emitted for each of them, in input order.
    /// Fails with `MissingPricesData`, emitting nothing, when no tick is loaded.
    pub fn run(self) -> (r: Result<Vec<RollingOHLC>, Error>)
        ensures
            self.input_data@.len() == 0 <==> r is Err,
            r is Err ==> r->Err_0 is MissingPricesData,
            r is Ok ==> r->Ok_0@.len() == self.input_data@.len(),
            r is Ok ==> forall|i: int|
                0 <= i < self.input_data@.len() ==> emitted_for(
                    #[trigger] r->Ok_0@[i],
                    self.input_data@,
                    i,
                    self.timeframe_millis,
                ),
    {
        if self.input_data.len() == 0 {
            return Err(Error::MissingPricesData);
        }
        let ghost input = self.input_data@;
        let ghost frame = self.timeframe_millis;
        let n = self.input_data.len();
        let mut actor = OHLCActor::new(self.timeframe_millis);
        let mut out: Vec<RollingOHLC> = Vec::new();
        let mut i: usize = 0;
        while i < n
            invariant
                n == input.len(),
                input == self.input_data@,
                frame == self.timeframe_millis,
                i <= n,
                out@.len() == i,
                actor.wf(),
                actor.timeframe_millis == frame,
                forall|t: Seq<char>|
                    #[trigger] actor.prices_of(t) == ticker_prices(input.take(i as int), t)
                        && actor.timestamps_of(t) == ticker_timestamps(input.take(i as int), t),
                forall|k: int| 0 <= k < i ==> emitted_for(#[trigger] out@[k], input, k, frame),
            decreases n - i,
        {
            let tick = self.input_data[i].copy();
            let ghost pre = actor;
            let snap = actor.handle_message(tick);
            proof {
                let done = input.take(i + 1);
                assert(done.drop_last() =~= input.take(i as int));
                assert(done.last() == tick);
                assert forall|t: Seq<char>|
                    #[trigger] actor.prices_of(t) == ticker_prices(done, t)
                        && actor.timestamps_of(t) == ticker_timestamps(done, t) by {
                    assert(pre.prices_of(t) == ticker_prices(input.take(i as int), t));
                    assert(pre.timestamps_of(t) == ticker_timestamps(input.take(i as int), t));
                    assert(ticker_prices(done.drop_last(), t) == pre.prices_of(t));
                    assert(ticker_timestamps(done.drop_last(), t) == pre.timestamps_of(t));
                    if t == tick.ticker@ {
                        assert(ticker_prices(done, t) == pre.prices_of(t).push(tick.ask_price));
                    } else {
                        assert(actor.prices_of(t) == pre.prices_of(t));
                    }
                }
                assert(emitted_for(snap, input, i as int, frame));
            }
            out.push(snap);
            i = i + 1;
        }
        Ok(out)
    }
}

} // verus!
