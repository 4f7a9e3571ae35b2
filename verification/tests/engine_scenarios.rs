use fourier::backtest::BackTester;
use fourier::fourier::{Candle, PositionError};
use fourier::roostoo::{BalanceInfo, BalanceResponse, OrderDetail, OrderSide, OrderType, WalletEntry};
use fourier::strategy::{
    Action, CandleData, Event, ExecContext, Executioner, FillError, Holding, Order, Phase,
    SharedState, Strategy, TraderConfig,
};

/// Enters with ten lots on the first candle of a flat symbol, closes as soon
/// as the last close is below the entry price.
struct Scripted;

impl Strategy for Scripted {
    fn should_long(&self, ctx: &ExecContext, _shared: &SharedState) -> bool {
        !ctx.position.is_open() && ctx.candles.len() == 1
    }

    fn go_long(&self, ctx: &ExecContext, _shared: &SharedState) -> Option<Order> {
        Some(Order {
            pair: format!("{}/USD", ctx.symbol),
            side: OrderSide::Buy,
            order_type: OrderType::Market,
            quantity: 10,
            price: None,
        })
    }

    fn update_position(&self, ctx: &ExecContext, _shared: &SharedState) -> bool {
        ctx.last_close < ctx.position.entry_price()
    }
}

/// Never trades.
struct Passive;

impl Strategy for Passive {
    fn should_long(&self, _ctx: &ExecContext, _shared: &SharedState) -> bool {
        false
    }

    fn go_long(&self, _ctx: &ExecContext, _shared: &SharedState) -> Option<Order> {
        None
    }

    fn update_position(&self, _ctx: &ExecContext, _shared: &SharedState) -> bool {
        false
    }
}

fn candle(close: u64) -> Candle {
    Candle {
        open_time: 0,
        close_time: 1,
        open: close,
        high: close,
        low: close,
        close,
        volume: 1,
        trade_count: 1,
    }
}

fn tick(symbol: &str, close: u64) -> Event {
    Event::Candle(CandleData { symbol: symbol.to_string(), candle: candle(close) })
}

fn engine<T: Strategy>(strategy: T, capital: i64, holdings: Vec<Holding>) -> Executioner<T> {
    let mut e = Executioner::new(TraderConfig {
        initial_capital: capital,
        strategy,
        initial_positions: holdings,
    });
    e.add_symbol("X".to_string(), 0);
    e
}

fn confirmation(side: &str, qty: u64, price: u64, fee: u64) -> OrderDetail {
    OrderDetail {
        pair: "X/USD".to_string(),
        order_id: 1,
        status: "FILLED".to_string(),
        role: "TAKER".to_string(),
        server_time_usage: 0,
        create_timestamp: 0,
        finish_timestamp: 0,
        side: side.to_string(),
        order_type: "MARKET".to_string(),
        stop_type: "GTC".to_string(),
        price,
        quantity: qty,
        filled_quantity: qty,
        filled_aver_price: price,
        coin_change: 0,
        unit_change: 0,
        commission_coin: "USD".to_string(),
        commission_charge_value: fee,
        commission_percent: 0,
    }
}

fn wallet(entries: &[(&str, i64)]) -> BalanceResponse {
    BalanceResponse {
        success: true,
        err_msg: String::new(),
        spot_wallet: entries
            .iter()
            .map(|(currency, free)| WalletEntry {
                currency: currency.to_string(),
                balance: BalanceInfo { free: *free, lock: 0 },
            })
            .collect(),
        margin_wallet: Vec::new(),
    }
}

#[test]
fn a_new_engine_is_idle_and_empty() {
    let e = Executioner::new(TraderConfig {
        initial_capital: 42,
        strategy: Passive,
        initial_positions: Vec::new(),
    });
    assert_eq!(e.capital(), 42);
    assert_eq!(e.phase(), Phase::Idle);
    assert_eq!(e.symbol_count(), 0);
    assert!(e.context("X").is_none());
}

#[test]
fn registering_creates_an_empty_context() {
    let mut e = engine(Passive, 0, Vec::new());
    e.add_symbol("BTC".to_string(), 5);
    assert_eq!(e.symbol_count(), 2);
    let ctx = e.context("BTC").unwrap();
    assert_eq!(ctx.symbol, "BTC");
    assert_eq!(ctx.precision, 5);
    assert!(ctx.candles.is_empty());
    assert!(!ctx.position.is_open());
    assert_eq!(ctx.position.symbol, "BTC");
    assert_eq!(ctx.last_close, 0);
}

#[test]
fn registering_again_starts_the_symbol_over() {
    let mut e = engine(Scripted, 1000, Vec::new());
    e.step(tick("X", 2), 7, true);
    assert!(e.context("X").unwrap().position.is_open());
    e.add_symbol("X".to_string(), 4);
    assert_eq!(e.symbol_count(), 1);
    let ctx = e.context("X").unwrap();
    assert!(!ctx.position.is_open());
    assert!(ctx.candles.is_empty());
    assert_eq!(ctx.precision, 4);
    assert_eq!(e.capital(), 980);
}

#[test]
fn a_candle_of_an_unregistered_symbol_is_dropped() {
    let mut e = engine(Scripted, 1000, Vec::new());
    let a = e.step(tick("Y", 2), 7, false);
    assert!(matches!(a, Action::Next));
    assert_eq!(e.phase(), Phase::Idle);
    assert_eq!(e.capital(), 1000);
    assert!(e.context("X").unwrap().candles.is_empty());
    assert!(e.context("Y").is_none());
}

#[test]
fn scenario_enter_simulated() {
    let mut e = engine(Scripted, 1000, Vec::new());
    let a = e.step(tick("X", 2), 7, true);
    assert!(matches!(a, Action::Next));
    assert_eq!(e.phase(), Phase::Idle);
    assert_eq!(e.capital(), 980);
    let ctx = e.context("X").unwrap();
    assert_eq!(ctx.position.quantity, 10);
    assert_eq!(ctx.position.entry_price(), 2);
    assert_eq!(ctx.position.entry_time, Some(7));
    assert_eq!(ctx.last_close, 2);
    assert_eq!(ctx.candles.len(), 1);
}

#[test]
fn scenario_stop_simulated() {
    let mut e = engine(Scripted, 100_000, Vec::new());
    e.step(tick("X", 2000), 7, true);
    assert_eq!(e.capital(), 100_000 - 20_000 - 20);
    let a = e.step(tick("X", 1000), 8, true);
    assert!(matches!(a, Action::Next));
    let ctx = e.context("X").unwrap();
    assert_eq!(ctx.position.quantity, 0);
    assert_eq!(ctx.position.entry_time, None);
    assert_eq!(ctx.position.realized_pnl, (1000 - 2000) * 10 - 20 - 10);
    assert_eq!(e.capital(), 79_980 + 10 * 1000 - 10);
}

#[test]
fn scenario_stop_simulated_at_small_prices() {
    let mut e = engine(Scripted, 1000, Vec::new());
    e.step(tick("X", 2), 7, true);
    let a = e.step(tick("X", 1), 8, true);
    assert!(matches!(a, Action::Next));
    let ctx = e.context("X").unwrap();
    assert_eq!(ctx.position.quantity, 0);
    assert_eq!(ctx.position.entry_price(), 0);
    assert_eq!(ctx.position.avg_fee_per_unit(), 0);
    assert_eq!(ctx.position.unrealized_pnl, 0);
    assert_eq!(ctx.position.entry_time, None);
    assert_eq!(ctx.position.realized_pnl, -10);
    assert_eq!(e.capital(), 980 + 10);
    assert_eq!(e.symbol_count(), 1);
}

/// Never enters; closes when the last close is one.
struct StopAtOne;

impl Strategy for StopAtOne {
    fn should_long(&self, _ctx: &ExecContext, _shared: &SharedState) -> bool {
        false
    }

    fn go_long(&self, _ctx: &ExecContext, _shared: &SharedState) -> Option<Order> {
        None
    }

    fn update_position(&self, ctx: &ExecContext, _shared: &SharedState) -> bool {
        ctx.last_close == 1
    }
}

#[test]
fn scenario_partial_fill_of_a_closing_order() {
    let mut e = engine(StopAtOne, 980, vec![Holding { symbol: "X".to_string(), quantity: 10 }]);
    assert!(matches!(e.step(tick("X", 2), 5, false), Action::Next));
    assert_eq!(e.context("X").unwrap().position.quantity, 10);
    assert_eq!(e.context("X").unwrap().position.entry_price(), 2);
    match e.step(tick("X", 1), 6, false) {
        Action::Dispatch(envelope) => {
            assert_eq!(envelope.order.pair, "X/USD");
            assert_eq!(envelope.order.side, OrderSide::Sell);
            assert_eq!(envelope.order.order_type, OrderType::Market);
            assert_eq!(envelope.order.quantity, 10);
            assert_eq!(envelope.precision, 0);
        }
        _ => panic!("a closing order must go out"),
    }
    let a = e.step(Event::Fill(Some(confirmation("SELL", 4, 1, 0))), 7, false);
    assert!(matches!(a, Action::Next));
    let p = &e.context("X").unwrap().position;
    assert_eq!(p.quantity, 6);
    assert_eq!(p.entry_price(), 2);
    assert_eq!(p.realized_pnl, -4);
    assert_eq!(p.entry_time, Some(5));
    assert_eq!(e.capital(), 984);
    assert!(e.faults().is_empty());
}

#[test]
fn a_later_holding_of_a_symbol_replaces_an_earlier_one() {
    let holdings = vec![
        Holding { symbol: "X".to_string(), quantity: 3 },
        Holding { symbol: "Y".to_string(), quantity: 9 },
        Holding { symbol: "X".to_string(), quantity: 5 },
    ];
    let mut e = engine(Passive, 1000, holdings);
    e.step(tick("X", 3), 77, false);
    assert_eq!(e.context("X").unwrap().position.quantity, 5);
    e.add_symbol("X".to_string(), 0);
    e.step(tick("X", 4), 78, false);
    assert!(!e.context("X").unwrap().position.is_open());
}

#[test]
fn a_position_that_cannot_be_marked_is_noted() {
    let mut e = engine(Passive, 0, vec![Holding { symbol: "X".to_string(), quantity: 1 << 32 }]);
    e.step(tick("X", 1), 1, true);
    assert!(e.faults().is_empty());
    e.step(tick("X", 1 << 32), 2, true);
    assert_eq!(e.faults(), &vec![FillError::Position(PositionError::Overflow)]);
    assert_eq!(e.context("X").unwrap().position.unrealized_pnl, 0);
    e.step(tick("X", 2), 3, true);
    assert!(e.faults().is_empty());
    assert_eq!(e.context("X").unwrap().position.unrealized_pnl, 1 << 32);
}

#[test]
fn the_stages_take_the_answers_as_given() {
    let mut e = engine(Passive, 1000, Vec::new());
    e.step(tick("X", 2), 1, true);
    let order = Order {
        pair: "X/USD".to_string(),
        side: OrderSide::Buy,
        order_type: OrderType::Market,
        quantity: 10,
        price: None,
    };
    assert!(matches!(e.settle_entry(0, 9, true, Some(order.clone())), Action::Next));
    assert_eq!(e.capital(), 980);
    assert_eq!(e.context("X").unwrap().position.quantity, 10);
    assert!(e.settle_exit(0, 10, true, false).is_none());
    assert_eq!(e.context("X").unwrap().position.quantity, 10);
    assert!(e.settle_exit(0, 10, true, true).is_none());
    assert!(!e.context("X").unwrap().position.is_open());
    assert_eq!(e.capital(), 1000);
    assert!(e.settle_exit(0, 10, false, true).is_none());
    assert_eq!(e.phase(), Phase::Idle);
    match e.settle_entry(0, 11, false, Some(order)) {
        Action::Dispatch(envelope) => assert_eq!(envelope.order.quantity, 10),
        _ => panic!("the order must go out"),
    }
    assert_eq!(e.phase(), Phase::Opening(0));
    e.step(Event::Fill(Some(confirmation("BUY", 10, 2, 0))), 12, false);
    match e.settle_exit(0, 13, false, true) {
        Some(Action::Dispatch(envelope)) => {
            assert_eq!(envelope.order.side, OrderSide::Sell);
            assert_eq!(envelope.order.quantity, 10);
        }
        _ => panic!("a closing order must go out"),
    }
    assert_eq!(e.phase(), Phase::Closing(0));
    assert!(matches!(e.settle_entry(0, 14, true, None), Action::Next));
    assert_eq!(e.phase(), Phase::Idle);
}

#[test]
fn scenario_enter_then_stop_live() {
    let mut e = engine(Scripted, 1000, Vec::new());
    let a = e.step(tick("X", 2), 7, false);
    match a {
        Action::Dispatch(envelope) => {
            assert_eq!(envelope.order.pair, "X/USD");
            assert_eq!(envelope.order.side, OrderSide::Buy);
            assert_eq!(envelope.order.quantity, 10);
            assert_eq!(envelope.precision, 0);
        }
        _ => panic!("an order must go out"),
    }
    assert_eq!(e.phase(), Phase::Opening(0));
    assert_eq!(e.capital(), 1000);
    let a = e.step(Event::Fill(Some(confirmation("BUY", 10, 2, 0))), 8, false);
    assert!(matches!(a, Action::Next));
    assert_eq!(e.phase(), Phase::Idle);
    assert_eq!(e.capital(), 980);
    assert_eq!(e.context("X").unwrap().position.quantity, 10);
    assert_eq!(e.context("X").unwrap().position.entry_price(), 2);
    assert_eq!(e.context("X").unwrap().position.entry_time, Some(8));

    let a = e.step(tick("X", 1), 9, false);
    match a {
        Action::Dispatch(envelope) => {
            assert_eq!(envelope.order.pair, "X/USD");
            assert_eq!(envelope.order.side, OrderSide::Sell);
            assert_eq!(envelope.order.order_type, OrderType::Market);
            assert_eq!(envelope.order.quantity, 10);
            assert_eq!(envelope.order.price, None);
        }
        _ => panic!("a closing order must go out"),
    }
    assert_eq!(e.phase(), Phase::Closing(0));
    assert_eq!(e.context("X").unwrap().position.unrealized_pnl, -10);
    let a = e.step(Event::Fill(Some(confirmation("SELL", 10, 1, 3))), 10, false);
    assert!(matches!(a, Action::Next));
    assert_eq!(e.phase(), Phase::Idle);
    let ctx = e.context("X").unwrap();
    assert_eq!(ctx.position.quantity, 0);
    assert_eq!(ctx.position.realized_pnl, -10 - 3);
    assert_eq!(ctx.position.entry_time, None);
    assert_eq!(e.capital(), 980 + 10 - 3);
}

#[test]
fn scenario_reconciliation_overwrites() {
    let mut e = engine(Passive, 975, Vec::new());
    assert_eq!(e.sync(None, Some(&wallet(&[("BTC", 3), ("USD", 970)]))), None);
    assert_eq!(e.capital(), 970);
    assert_eq!(e.sync(None, Some(&wallet(&[("BTC", 3)]))), None);
    assert_eq!(e.capital(), 970);
    assert_eq!(e.sync(None, None), None);
    assert_eq!(e.capital(), 970);
}

#[test]
fn sync_books_a_confirmation_on_the_capital_alone() {
    let mut e = engine(Passive, 1000, Vec::new());
    assert_eq!(e.sync(Some(&confirmation("BUY", 10, 2, 1)), None), Some((10, 2, 1)));
    assert_eq!(e.capital(), 979);
    assert!(!e.context("X").unwrap().position.is_open());
    assert_eq!(e.sync(Some(&confirmation("SELL", 4, 5, 1)), Some(&wallet(&[("USD", 1)]))), Some((4, 5, 1)));
    assert_eq!(e.capital(), 998);
    assert_eq!(e.sync(Some(&confirmation("sell", 4, 5, 1)), None), None);
    assert_eq!(e.sync(Some(&confirmation("BUY", u64::MAX, u64::MAX, 0)), None), None);
    assert_eq!(e.capital(), 998);
}

#[test]
fn a_failed_order_changes_nothing() {
    let mut e = engine(Scripted, 1000, Vec::new());
    assert!(matches!(e.step(tick("X", 2), 7, false), Action::Dispatch(_)));
    let a = e.step(Event::Fill(None), 8, false);
    assert!(matches!(a, Action::Next));
    assert_eq!(e.phase(), Phase::Idle);
    assert_eq!(e.capital(), 1000);
    assert!(!e.context("X").unwrap().position.is_open());
    assert!(e.faults().is_empty());
}

#[test]
fn a_confirmation_of_unknown_side_changes_nothing() {
    let mut e = engine(Scripted, 1000, Vec::new());
    assert!(matches!(e.step(tick("X", 2), 7, false), Action::Dispatch(_)));
    let a = e.step(Event::Fill(Some(confirmation("HOLD", 10, 2, 0))), 8, false);
    assert!(matches!(a, Action::Next));
    assert_eq!(e.capital(), 1000);
    assert!(!e.context("X").unwrap().position.is_open());
    assert_eq!(e.faults(), &vec![FillError::UnknownSide]);
    e.step(tick("X", 3), 9, false);
    assert!(e.faults().is_empty());
}

#[test]
fn a_confirmation_that_the_position_refuses_leaves_the_capital() {
    let mut e = engine(Scripted, 1000, Vec::new());
    assert!(matches!(e.step(tick("X", 2), 7, false), Action::Dispatch(_)));
    let a = e.step(Event::Fill(Some(confirmation("SELL", 10, 2, 0))), 8, false);
    assert!(matches!(a, Action::Next));
    assert_eq!(e.capital(), 1000);
    assert!(!e.context("X").unwrap().position.is_open());
    assert_eq!(e.faults(), &vec![FillError::Position(PositionError::NothingToReduce)]);
}

#[test]
fn a_simulated_fill_that_cannot_be_booked_is_noted() {
    let mut e = engine(Scripted, 1000, Vec::new());
    e.step(tick("X", 2), 7, true);
    assert_eq!(e.sync(None, Some(&wallet(&[("USD", i64::MAX - 5)]))), None);
    let a = e.step(tick("X", 1), 8, true);
    assert!(matches!(a, Action::Next));
    assert_eq!(e.faults(), &vec![FillError::Capital]);
    assert_eq!(e.capital(), i64::MAX - 5);
    assert_eq!(e.context("X").unwrap().position.quantity, 10);
}

#[test]
fn a_holding_that_cannot_be_seeded_is_noted() {
    let mut e = engine(Passive, 0, vec![Holding { symbol: "X".to_string(), quantity: u64::MAX }]);
    e.step(tick("X", 2), 7, false);
    assert_eq!(e.faults(), &vec![FillError::Position(PositionError::Overflow)]);
    assert!(!e.context("X").unwrap().position.is_open());
    e.step(tick("X", 2), 8, false);
    assert!(e.faults().is_empty());
}

#[test]
fn after_a_close_the_entry_stage_follows() {
    let mut e = engine(Scripted, 1000, Vec::new());
    e.step(tick("X", 2), 7, true);
    e.add_symbol("Z".to_string(), 1);
    assert!(matches!(e.step(tick("X", 1), 8, false), Action::Dispatch(_)));
    assert_eq!(e.phase(), Phase::Closing(0));
    let a = e.step(tick("Z", 5), 9, false);
    assert!(matches!(a, Action::Next));
    assert_eq!(e.phase(), Phase::Idle);
    assert!(e.context("X").unwrap().position.is_open());
    assert!(e.context("Z").unwrap().candles.is_empty());
}

#[test]
fn events_out_of_turn_are_dropped_when_idle() {
    let mut e = engine(Scripted, 1000, Vec::new());
    assert!(matches!(e.step(Event::Fill(Some(confirmation("BUY", 10, 2, 0))), 1, false), Action::Next));
    assert!(matches!(e.step(Event::Balance(Some(wallet(&[("USD", 5)]))), 1, false), Action::Next));
    assert_eq!(e.capital(), 1000);
    assert_eq!(e.phase(), Phase::Idle);
    assert!(!e.context("X").unwrap().position.is_open());
}

#[test]
fn a_holding_is_seeded_once_on_the_first_candle() {
    let holdings = vec![
        Holding { symbol: "Y".to_string(), quantity: 9 },
        Holding { symbol: "X".to_string(), quantity: 5 },
    ];
    let mut e = engine(Passive, 1000, holdings);
    e.step(tick("X", 3), 77, false);
    let ctx = e.context("X").unwrap();
    assert_eq!((ctx.position.quantity, ctx.position.cost, ctx.position.fees), (5, 15, 0));
    assert_eq!(ctx.position.entry_time, Some(77));
    assert_eq!(e.capital(), 1000);
    e.add_symbol("X".to_string(), 0);
    e.step(tick("X", 4), 78, false);
    assert!(!e.context("X").unwrap().position.is_open());
}

#[test]
fn a_holding_is_used_up_even_where_it_cannot_be_seeded() {
    let mut e = engine(Passive, 1000, vec![Holding { symbol: "X".to_string(), quantity: 5 }]);
    e.step(tick("X", 0), 1, false);
    assert!(!e.context("X").unwrap().position.is_open());
    e.step(tick("X", 4), 2, false);
    assert!(!e.context("X").unwrap().position.is_open());
}

#[test]
fn a_live_engine_reconciles_every_fifteenth_event_per_symbol() {
    let mut e = engine(Passive, 975, Vec::new());
    for i in 1..15 {
        assert!(matches!(e.step(tick("X", i), i, false), Action::Next));
        assert!(matches!(e.step(tick("unknown", i), i, false), Action::Next));
    }
    assert!(matches!(e.step(tick("X", 15), 15, false), Action::QueryBalance));
    assert_eq!(e.phase(), Phase::Reconciling);
    assert!(matches!(e.step(Event::Balance(Some(wallet(&[("USD", 970)]))), 16, false), Action::Next));
    assert_eq!(e.phase(), Phase::Idle);
    assert_eq!(e.capital(), 970);
    for i in 16..30 {
        assert!(matches!(e.step(tick("X", i), i, false), Action::Next));
    }
    assert!(matches!(e.step(tick("X", 30), 30, false), Action::QueryBalance));
    assert!(matches!(e.step(Event::Balance(None), 31, false), Action::Next));
    assert_eq!(e.capital(), 970);
    assert_eq!(e.phase(), Phase::Idle);
}

#[test]
fn the_reconciliation_interval_grows_with_the_symbols() {
    let mut e = engine(Passive, 0, Vec::new());
    e.add_symbol("Y".to_string(), 0);
    for i in 1..30 {
        let symbol = if i % 2 == 0 { "X" } else { "Y" };
        assert!(matches!(e.step(tick(symbol, i), i, false), Action::Next));
    }
    assert!(matches!(e.step(tick("X", 30), 30, false), Action::QueryBalance));
}

#[test]
fn a_simulating_engine_never_reconciles() {
    let mut e = engine(Passive, 975, Vec::new());
    for i in 1..100 {
        assert!(matches!(e.step(tick("X", i), i, true), Action::Next));
        assert_eq!(e.phase(), Phase::Idle);
    }
    assert_eq!(e.capital(), 975);
}

#[test]
fn run_replays_a_feed() {
    let mut e = engine(Scripted, 1000, Vec::new());
    let feed: Vec<CandleData> = [2u64, 1, 5]
        .iter()
        .map(|c| CandleData { symbol: "X".to_string(), candle: candle(*c) })
        .collect();
    e.run(&feed);
    assert_eq!(e.phase(), Phase::Idle);
    assert_eq!(e.capital(), 990);
    let ctx = e.context("X").unwrap();
    assert!(!ctx.position.is_open());
    assert_eq!(ctx.position.realized_pnl, -10);
    assert_eq!(ctx.candles.len(), 3);
    assert_eq!(ctx.last_close, 5);
}

#[test]
fn a_backtest_returns_the_final_capital() {
    let candles = vec![candle(2), candle(1), candle(5)];
    assert_eq!(BackTester::create(Scripted).begin(&candles, "X", 1000), 990);
    assert_eq!(BackTester::create(Passive).begin(&candles, "X", 1000), 1000);
    assert_eq!(BackTester::create(Scripted).begin(&Vec::new(), "X", 7), 7);
}

#[test]
fn a_replay_keeps_the_books_balanced() {
    let mut e = engine(Scripted, 1_000_000, Vec::new());
    e.add_symbol("Y".to_string(), 2);
    let mut feed: Vec<CandleData> = Vec::new();
    for (symbol, close) in [("X", 2000u64), ("Y", 700), ("X", 1500), ("Y", 900), ("X", 1700)] {
        feed.push(CandleData { symbol: symbol.to_string(), candle: candle(close) });
    }
    e.run(&feed);
    let mut books = e.capital() as i128;
    for symbol in ["X", "Y"] {
        let p = &e.context(symbol).unwrap().position;
        books += p.cost as i128 + p.fees as i128 - p.realized_pnl as i128;
    }
    assert_eq!(books, 1_000_000);
    assert!(e.context("Y").unwrap().position.is_open());
    assert!(!e.context("X").unwrap().position.is_open());
    assert_eq!(e.context("X").unwrap().position.realized_pnl, -5000 - 20 - 15);
    assert_eq!(e.capital(), 1_000_000 - 20_020 + 15_000 - 15 - 7_000 - 7);
}
