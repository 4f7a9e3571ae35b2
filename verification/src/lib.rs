//! A long-only trading execution engine.
//!
//! Candles come in per symbol. Each symbol has a context with its recent
//! candles and its position; a strategy decides on each candle whether to
//! close the position and whether to enter; the engine turns the decisions
//! into fills, simulated or confirmed by the venue, and books each fill on
//! the position and on the capital that all symbols share.
//!
//! All amounts are whole numbers. A quantity is in lots of `10^-precision`
//! units of the asset, a price in ticks per lot, money in ticks, where a tick
//! is `10^-8` units of the quote currency. Nothing is rounded within the
//! ledgers: where a result is no 64-bit amount the operation fails and leaves
//! everything as it was.
//!
//! - [`fourier`]: candles, the position ledger, and the trend strategy.
//! - [`strategy`]: contexts, the strategy protocol, fills, and the engine.
//! - [`indicators`]: moving averages and oscillators.
//! - [`roostoo`]: the venue's vocabulary, requests and replies.
//! - [`order_engine`]: the order desk between engine and venue.
//! - [`backtest`]: replay of recorded candles.
//! - [`feed`]: reading the market's price bars.
//! - [`arith`]: the exact arithmetic underneath.
pub mod arith;
pub mod roostoo;
pub mod strategy;
pub mod order_engine;
pub mod backtest;
pub mod fourier;
pub mod indicators;
pub mod feed;
