use fourier::fourier::{Candle, Position, PositionError};
use fourier::roostoo::{OrderDetail, OrderSide};
use fourier::strategy::{
    apply_fill, confirmed_fill, keep_newest, simulated_fill, ExecContext, FillError, SharedState,
    MAX_CANDLE_HISTORY,
};

fn bar(close: u64) -> Candle {
    Candle {
        open_time: close,
        close_time: close + 1,
        open: close,
        high: close + 2,
        low: close.saturating_sub(2),
        close,
        volume: 10,
        trade_count: 3,
    }
}

fn detail(side: &str, qty: u64, price: u64, fee: u64) -> OrderDetail {
    OrderDetail {
        pair: "X/USD".to_string(),
        order_id: 9,
        status: "FILLED".to_string(),
        role: "TAKER".to_string(),
        server_time_usage: 0,
        create_timestamp: 1,
        finish_timestamp: 2,
        side: side.to_string(),
        order_type: "MARKET".to_string(),
        stop_type: "GTC".to_string(),
        price,
        quantity: qty,
        filled_quantity: qty,
        filled_aver_price: price,
        coin_change: 0,
        unit_change: 0,
        commission_coin: "USD".to_string(),
        commission_charge_value: fee,
        commission_percent: 0,
    }
}

#[test]
fn a_buy_takes_notional_and_fee_from_the_capital() {
    let mut p = Position::empty("X");
    let mut s = SharedState { capital: 1000, streak: 4 };
    assert_eq!(apply_fill(&mut p, &mut s, OrderSide::Buy, 10, 7, 3, 55), Ok(()));
    assert_eq!(s.capital, 1000 - (70 + 3));
    assert_eq!(s.streak, 4);
    assert_eq!((p.quantity, p.cost, p.fees, p.entry_time), (10, 70, 3, Some(55)));
}

#[test]
fn a_sale_adds_notional_less_fee_to_the_capital() {
    let mut p = Position::empty("X");
    let mut s = SharedState { capital: 1000, streak: 0 };
    apply_fill(&mut p, &mut s, OrderSide::Buy, 10, 7, 0, 1).unwrap();
    assert_eq!(apply_fill(&mut p, &mut s, OrderSide::Sell, 4, 9, 2, 2), Ok(()));
    assert_eq!(s.capital, 930 + (36 - 2));
    assert_eq!((p.quantity, p.cost), (6, 42));
    assert_eq!(p.realized_pnl, 36 - 28 - 2);
}

#[test]
fn capital_may_go_below_zero() {
    let mut p = Position::empty("X");
    let mut s = SharedState { capital: 5, streak: 0 };
    assert_eq!(apply_fill(&mut p, &mut s, OrderSide::Buy, 2, 10, 1, 1), Ok(()));
    assert_eq!(s.capital, -16);
}

#[test]
fn a_fill_that_the_position_refuses_leaves_the_capital() {
    let mut p = Position::empty("X");
    let mut s = SharedState { capital: 1000, streak: 0 };
    assert_eq!(
        apply_fill(&mut p, &mut s, OrderSide::Sell, 4, 9, 2, 2),
        Err(FillError::Position(PositionError::NothingToReduce))
    );
    assert_eq!(
        apply_fill(&mut p, &mut s, OrderSide::Buy, 0, 9, 2, 2),
        Err(FillError::Position(PositionError::QtyNotPositive))
    );
    assert_eq!(
        apply_fill(&mut p, &mut s, OrderSide::Buy, u64::MAX, 1, 0, 2),
        Err(FillError::Capital)
    );
    assert_eq!(s.capital, 1000);
    assert!(!p.is_open());
}

#[test]
fn a_fill_that_the_capital_cannot_hold_leaves_the_position() {
    let mut p = Position::empty("X");
    let mut s = SharedState { capital: i64::MIN + 10, streak: 0 };
    assert_eq!(apply_fill(&mut p, &mut s, OrderSide::Buy, 1, 11, 0, 2), Err(FillError::Capital));
    assert!(!p.is_open());
    assert_eq!(apply_fill(&mut p, &mut s, OrderSide::Buy, 1, 10, 0, 2), Ok(()));
    assert_eq!(s.capital, i64::MIN);
    let mut rich = SharedState { capital: i64::MAX, streak: 0 };
    assert_eq!(apply_fill(&mut p, &mut rich, OrderSide::Sell, 1, 10, 0, 2), Err(FillError::Capital));
    assert_eq!(p.quantity, 1);
    assert_eq!(apply_fill(&mut p, &mut rich, OrderSide::Sell, 1, 10, 10, 2), Ok(()));
    assert_eq!(rich.capital, i64::MAX);
}

#[test]
fn settle_books_on_the_capital_alone() {
    let mut s = SharedState { capital: 100, streak: 1 };
    assert!(s.settle(OrderSide::Buy, 3, 10, 2));
    assert_eq!(s.capital, 68);
    assert!(s.settle(OrderSide::Sell, 3, 10, 2));
    assert_eq!(s.capital, 96);
    assert!(!s.settle(OrderSide::Sell, u64::MAX, u64::MAX, 0));
    assert_eq!(s, SharedState { capital: 96, streak: 1 });
}

#[test]
fn a_simulated_fill_costs_a_thousandth() {
    let mut p = Position::empty("X");
    let mut s = SharedState { capital: 1_000_000, streak: 0 };
    assert_eq!(simulated_fill(&mut p, &mut s, OrderSide::Buy, 10, 2000, 5), Ok(()));
    assert_eq!(s.capital, 1_000_000 - 20_000 - 20);
    assert_eq!((p.quantity, p.cost, p.fees), (10, 20_000, 20));
    assert_eq!(simulated_fill(&mut p, &mut s, OrderSide::Sell, 10, 2999, 6), Ok(()));
    assert_eq!(s.capital, 979_980 + 29_990 - 29);
    assert_eq!(p.realized_pnl, 29_990 - 20_000 - 20 - 29);
    assert!(!p.is_open());
}

#[test]
fn a_simulated_fill_of_a_small_notional_is_free() {
    let mut p = Position::empty("X");
    let mut s = SharedState { capital: 1000, streak: 0 };
    assert_eq!(simulated_fill(&mut p, &mut s, OrderSide::Buy, 10, 2, 5), Ok(()));
    assert_eq!(s.capital, 980);
    assert_eq!(p.fees, 0);
}

#[test]
fn a_confirmed_fill_goes_by_the_side_it_names() {
    let mut p = Position::empty("X");
    let mut s = SharedState { capital: 1000, streak: 0 };
    assert_eq!(confirmed_fill(&mut p, &mut s, &detail("BUY", 5, 20, 1), 7), Ok(()));
    assert_eq!(s.capital, 899);
    assert_eq!((p.quantity, p.cost, p.fees), (5, 100, 1));
    assert_eq!(confirmed_fill(&mut p, &mut s, &detail("SELL", 5, 30, 2), 8), Ok(()));
    assert_eq!(s.capital, 899 + 148);
    assert_eq!(p.realized_pnl, 150 - 100 - 1 - 2);
    assert_eq!(confirmed_fill(&mut p, &mut s, &detail("buy", 5, 30, 2), 8), Err(FillError::UnknownSide));
    assert_eq!(confirmed_fill(&mut p, &mut s, &detail("HOLD", 5, 30, 2), 8), Err(FillError::UnknownSide));
    assert_eq!(s.capital, 1047);
    assert!(!p.is_open());
}

#[test]
fn a_context_absorbs_a_candle() {
    let mut ctx = ExecContext::new("X", 3);
    assert_eq!(ctx.symbol, "X");
    assert_eq!(ctx.precision, 3);
    assert_eq!(ctx.position.symbol, "X");
    ctx.position.open_new(10, 5, 1, Some(1)).unwrap();
    ctx.update(bar(8));
    assert_eq!(ctx.last_close, 8);
    assert_eq!(ctx.candles.len(), 1);
    assert_eq!(ctx.candles[0], bar(8));
    assert_eq!(ctx.position.unrealized_pnl, 80 - 50 - 1);
    ctx.update(bar(4));
    assert_eq!(ctx.position.unrealized_pnl, 40 - 50 - 1);
    assert_eq!(ctx.candles.len(), 2);
}

#[test]
fn a_mark_beyond_64_bits_leaves_the_unrealized_pnl() {
    let mut ctx = ExecContext::new("X", 0);
    ctx.position.open_new(1 << 32, 1, 0, Some(1)).unwrap();
    ctx.update(bar(3));
    let before = ctx.position.unrealized_pnl;
    assert_eq!(before, 2 * (1i64 << 32));
    ctx.update(bar(1 << 32));
    assert_eq!(ctx.position.unrealized_pnl, before);
    assert_eq!(ctx.last_close, 1 << 32);
}

#[test]
fn the_history_keeps_the_newest_candles() {
    let mut ctx = ExecContext::new("X", 0);
    for i in 0..(MAX_CANDLE_HISTORY as u64 + 2) {
        ctx.update(bar(i));
    }
    assert_eq!(MAX_CANDLE_HISTORY, 2048);
    assert_eq!(ctx.candles.len(), 2048);
    assert_eq!(ctx.candles[0].close, 2);
    assert_eq!(ctx.candles[2047].close, 2049);
    assert_eq!(ctx.last_close, 2049);
}

#[test]
fn keep_newest_drops_the_oldest_first() {
    let mut v: Vec<Candle> = (0..10).map(bar).collect();
    keep_newest(&mut v, 3);
    assert_eq!(v, vec![bar(7), bar(8), bar(9)]);
    keep_newest(&mut v, 3);
    assert_eq!(v.len(), 3);
    keep_newest(&mut v, 0);
    assert!(v.is_empty());
}

#[test]
fn a_holding_is_taken_over_at_the_last_close() {
    let mut ctx = ExecContext::new("X", 0);
    ctx.seed(5, 9);
    assert!(!ctx.position.is_open());
    ctx.update(bar(3));
    ctx.seed(0, 9);
    assert!(!ctx.position.is_open());
    ctx.seed(5, 9);
    assert_eq!((ctx.position.quantity, ctx.position.cost, ctx.position.fees), (5, 15, 0));
    assert_eq!(ctx.position.entry_time, Some(9));
    ctx.seed(7, 10);
    assert_eq!(ctx.position.quantity, 5);
}
