//! Replay of recorded candles through an engine that simulates every fill.
use vstd::prelude::*;
use crate::fourier::Candle;
use crate::strategy::{
    CandleData, EngineView, Executioner, Phase, SharedState, Strategy, TraderConfig,
};

verus! {

/// Digits of one lot of the replayed symbol.
pub const BACKTEST_PRECISION: u64 = 3;

/// Runs a strategy over recorded candles.
pub struct BackTester<T> {
    pub strategy: T,
}

/// The engine that a replay starts from: `capital`, no holdings, and
/// `symbol` registered.
pub open spec fn replay_start(symbol: Seq<char>, capital: i64) -> EngineView {
    (EngineView {
        contexts: Seq::empty(),
        shared: SharedState { capital, streak: 0 },
        holdings: Seq::empty(),
        since_sync: 0,
        phase: Phase::Idle,
        faults: Seq::empty(),
    }).registered(symbol, BACKTEST_PRECISION)
}

/// `feed` is `candles`, each under the name `symbol`.
pub open spec fn feeds(feed: Seq<CandleData>, symbol: Seq<char>, candles: Seq<Candle>) -> bool {
    &&& feed.len() == candles.len()
    &&& forall|k: int|
        0 <= k < feed.len() ==> (#[trigger] feed[k]).symbol@ == symbol && feed[k].candle
            == candles[k]
}

impl<T: Strategy> BackTester<T> {
    pub fn create(strategy: T) -> (tester: Self)
        ensures
            tester.strategy == strategy,
    {
        BackTester { strategy }
    }

    /// Replays `candles` as the candles of `symbol` through a fresh engine
    /// that starts with `initial_capital` and decides by the tester's
    /// strategy, and returns the capital that the engine has at the end of
    /// the replay.
    pub fn begin(self, candles: &Vec<Candle>, symbol: &str, initial_capital: i64) -> (capital: i64)
        ensures
            exists|feed: Seq<CandleData>, times: Seq<u64>|
                feeds(feed, symbol@, candles@) && times.len() == feed.len() && capital
                    == #[trigger] replay_start(symbol@, initial_capital).replayed_by(
                    self.strategy,
                    feed,
                    times,
                ).shared.capital,
    {
        let mut engine = Executioner::new(
            TraderConfig {
                initial_capital,
                strategy: self.strategy,
                initial_positions: Vec::new(),
            },
        );
        assert(engine@.holdings =~= Seq::empty());
        engine.add_symbol(symbol.to_owned(), BACKTEST_PRECISION);
        let mut feed: Vec<CandleData> = Vec::new();
        let mut k: usize = 0;
        while k < candles.len()
            invariant
                k <= candles.len(),
                feeds(feed@, symbol@, candles@.take(k as int)),
            decreases candles.len() - k,
        {
            feed.push(CandleData { symbol: symbol.to_owned(), candle: candles[k] });
            k += 1;
        }
        assert(candles@.take(k as int) =~= candles@);
        engine.run(&feed);
        engine.capital()
    }
}

} // verus!
