use crate::args::PriceDataEntity;
use crate::ohlc::{OHLCState, RollingOHLC};
use vstd::prelude::*;

verus! {

/// The aggregation stage: it owns the state of every ticker seen so far and
/// updates one of them per tick.
#[derive(Debug)]
pub struct OHLCActor {
    pub timeframe_millis: u64,
    /// Tickers seen so far, each once, in order of first appearance. Held as a
    /// vector searched by string equality rather than a `HashMap<String, _>`:
    /// vstd specifies `String == String` over the characters, which lets each
    /// lookup be proved, while a hash map keyed by `String` proves nothing
    /// about what a lookup finds.
    pub tickers: Vec<String>,
    /// The state of `tickers[i]` is `states[i]`.
    pub states: Vec<OHLCState>,
}

impl OHLCActor {
    pub open spec fn wf(&self) -> bool {
        &&& self.tickers@.len() == self.states@.len()
        &&& forall|i: int, j: int|
            0 <= i < self.tickers@.len() && 0 <= j < self.tickers@.len()
                && #[trigger] self.tickers@[i]@ == #[trigger] self.tickers@[j]@ ==> i == j
        &&& forall|i: int| 0 <= i < self.states@.len() ==> (#[trigger] self.states@[i]).wf()
        &&& forall|i: int|
            0 <= i < self.states@.len() ==> (#[trigger] self.states@[i]).time_frame
                == self.timeframe_millis
    }

    pub open spec fn has_ticker(&self, t: Seq<char>) -> bool {
        exists|i: int| 0 <= i < self.tickers@.len() && #[trigger] self.tickers@[i]@ == t
    }

    pub open spec fn index_of(&self, t: Seq<char>) -> int {
        choose|i: int| 0 <= i < self.tickers@.len() && #[trigger] self.tickers@[i]@ == t
    }

    /// The state of ticker `t`, where it has been seen.
    pub open spec fn state_of(&self, t: Seq<char>) -> OHLCState {
        self.states@[self.index_of(t)]
    }

    /// Every price seen so far for ticker `t`, in arrival order.
    pub open spec fn prices_of(&self, t: Seq<char>) -> Seq<i64> {
        if self.has_ticker(t) {
            self.states@[self.index_of(t)].prices@
        } else {
            Seq::empty()
        }
    }

    /// Every timestamp seen so far for ticker `t`, in arrival order.
    pub open spec fn timestamps_of(&self, t: Seq<char>) -> Seq<u64> {
        if self.has_ticker(t) {
            self.states@[self.index_of(t)].timestamps@
        } else {
            Seq::empty()
        }
    }

    /// Creates an aggregation stage with no ticker yet, whose windows are
    /// `timeframe_millis` milliseconds long.
    pub fn new(timeframe_millis: u64) -> (r: Self)
        ensures
            r.wf(),
            r.timeframe_millis == timeframe_millis,
            r.tickers@.len() == 0,
            forall|t: Seq<char>| !r.has_ticker(t),
    {
        OHLCActor { timeframe_millis, tickers: Vec::new(), states: Vec::new() }
    }

    /// Position of `ticker` in `tickers`, if it has been seen.
    fn find(&self, ticker: &String) -> (r: Option<usize>)
        requires
            self.wf(),
        ensures
            r is None ==> !self.has_ticker(ticker@),
            r is Some ==> r->Some_0 < self.tickers@.len() && self.tickers@[r->Some_0 as int]@
                == ticker@,
    {
        let mut i: usize = 0;
        while i < self.tickers.len()
            invariant
                i <= self.tickers@.len(),
                forall|j: int| 0 <= j < i ==> self.tickers@[j]@ != ticker@,
            decreases self.tickers@.len() - i,
        {
            if self.tickers[i] == *ticker {
                return Some(i);
            }
            i = i + 1;
        }
        None
    }

    /// Processes one tick: appends its ask price and start timestamp to the
    /// history of its ticker (which starts empty on its first tick) and returns
    /// the refreshed aggregate of that ticker, which its state also stores. No
    /// other ticker's state changes.
    pub fn handle_message(&mut self, data: PriceDataEntity) -> (r: RollingOHLC)
        requires
            old(self).wf(),
        ensures
            final(self).wf(),
            final(self).timeframe_millis == old(self).timeframe_millis,
            final(self).has_ticker(data.ticker@),
            final(self).prices_of(data.ticker@) == old(self).prices_of(data.ticker@).push(
                data.ask_price,
            ),
            final(self).timestamps_of(data.ticker@) == old(self).timestamps_of(data.ticker@).push(
                data.timestamp_start,
            ),
            forall|t: Seq<char>|
                t != data.ticker@ ==> {
                    &&& final(self).has_ticker(t) == old(self).has_ticker(t)
                    &&& #[trigger] final(self).prices_of(t) == old(self).prices_of(t)
                    &&& final(self).timestamps_of(t) == old(self).timestamps_of(t)
                    &&& old(self).has_ticker(t) ==> final(self).state_of(t) == old(self).state_of(t)
                },
            final(self).state_of(data.ticker@).time_frame == final(self).timeframe_millis,
            final(self).state_of(data.ticker@).current_rolling_ohlc == r,
            r.describes(
                data.ticker@,
                final(self).prices_of(data.ticker@),
                final(self).timestamps_of(data.ticker@),
                final(self).timeframe_millis,
            ),
    {
        let ghost pre = *self;
        let idx: usize = match self.find(&data.ticker) {
            Some(i) => i,
            None => {
                self.tickers.push(data.ticker.clone());
                self.states.push(OHLCState::new(self.timeframe_millis));
                proof {
                    let n = self.tickers@.len() - 1;
                    assert(self.states@[n as int].wf());
                    assert forall|i: int, j: int|
                        0 <= i < self.tickers@.len() && 0 <= j < self.tickers@.len()
                            && #[trigger] self.tickers@[i]@ == #[trigger] self.tickers@[j]@ implies i
                        == j by {
                        if i < n && j == n {
                            assert(pre.tickers@[i]@ == data.ticker@);
                        }
                        if j < n && i == n {
                            assert(pre.tickers@[j]@ == data.ticker@);
                        }
                    }
                    assert(forall|i: int| 0 <= i < n ==> self.tickers@[i] == pre.tickers@[i]);
                    assert(forall|i: int| 0 <= i < n ==> self.states@[i] == pre.states@[i]);
                }
                self.tickers.len() - 1
            },
        };
        let ghost mid = *self;
        proof {
            assert(idx < mid.tickers@.len() && mid.tickers@[idx as int]@ == data.ticker@);
            assert(mid.has_ticker(data.ticker@));
            assert(mid.index_of(data.ticker@) == idx);
            assert(mid.prices_of(data.ticker@) == pre.prices_of(data.ticker@));
            assert(mid.timestamps_of(data.ticker@) == pre.timestamps_of(data.ticker@));
            assert forall|t: Seq<char>| t != data.ticker@ implies {
                &&& mid.has_ticker(t) == pre.has_ticker(t)
                &&& mid.prices_of(t) == pre.prices_of(t)
                &&& mid.timestamps_of(t) == pre.timestamps_of(t)
                &&& pre.has_ticker(t) ==> mid.state_of(t) == pre.state_of(t)
            } by {
                if pre.has_ticker(t) {
                    let i = pre.index_of(t);
                    assert(mid.tickers@[i]@ == t);
                    assert(mid.has_ticker(t));
                    assert(mid.index_of(t) == i);
                }
                if mid.has_ticker(t) {
                    let i = mid.index_of(t);
                    assert(i != idx);
                    assert(pre.tickers@[i]@ == t);
                }
            }
        }
        self.states[idx].add_price_timestamp(data.ticker.as_str(), data.ask_price, data.timestamp_start);
        let r = self.states[idx].get_current_ohlcv();
        proof {
            assert forall|i: int| 0 <= i < self.states@.len() implies (#[trigger] self.states@[i]).wf()
                && self.states@[i].time_frame == self.timeframe_millis by {
                if i != idx {
                    assert(self.states@[i] == mid.states@[i]);
                }
            }
            assert(self.tickers@ == mid.tickers@);
            assert(self.has_ticker(data.ticker@));
            assert(self.index_of(data.ticker@) == idx);
            assert forall|t: Seq<char>| t != data.ticker@ implies {
                &&& self.has_ticker(t) == mid.has_ticker(t)
                &&& #[trigger] self.prices_of(t) == mid.prices_of(t)
                &&& self.timestamps_of(t) == mid.timestamps_of(t)
                &&& mid.has_ticker(t) ==> self.state_of(t) == mid.state_of(t)
            } by {
                if mid.has_ticker(t) {
                    let i = mid.index_of(t);
                    assert(self.has_ticker(t));
                    assert(self.index_of(t) == i);
                    assert(i != idx);
                    assert(self.states@[i] == mid.states@[i]);
                }
            }
        }
        r
    }
}

} // verus!
