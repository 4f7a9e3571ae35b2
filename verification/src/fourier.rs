//! Candles and the per-symbol position ledger.
//!
//! Quantities are whole lots and prices are whole ticks per lot, so that a
//! notional value `quantity * price` is exact. A lot is `10^-precision` units
//! of the traded asset, with the symbol's precision; a tick is
//! `10^-QUOTE_DIGITS` units of the quote currency. A position keeps the cost of the
//! lots it holds and the fees paid for them; its entry price is the ratio of
//! that cost to the quantity. Fills add to the ledger without rounding; a
//! partial reduction takes the sold lots' share of cost and fees rounded up,
//! which leaves the entry price and the fee per lot of what remains, in whole
//! ticks, as they were.
use vstd::prelude::*;
use vstd::string::StringExecFns;
use std::time::{SystemTime, UNIX_EPOCH};
use crate::indicators::{atr_of, closes_of, ema_series_of, rsi_of, Indicators};
use crate::roostoo::{OrderSide, OrderType};
use crate::strategy::{ExecContext, ExecContextView, Order, OrderView, SharedState, Strategy};
use crate::arith::{
    div_toward_zero, fits_i64, fits_u64, lemma_mul_le, lemma_scaled_div, lemma_share_bounds, net,
    prorate, share, sum_i64, wide_mul,
};

verus! {

/// Decimal digits of the quote currency that one tick stands for.
pub const QUOTE_DIGITS: u64 = 8;

/// Ticks in one unit of the quote currency.
pub const TICKS_PER_UNIT: u64 = 100_000_000;

/// One price bar. Prices and volume are in ticks and lots.
#[derive(Debug, Clone, Copy, PartialEq, Eq, Structural)]
pub struct Candle {
    pub open_time: u64,
    pub close_time: u64,
    pub open: u64,
    pub high: u64,
    pub low: u64,
    pub close: u64,
    pub volume: u64,
    pub trade_count: i64,
}

/// Reads the system clock ([`SystemTime::now`]) as seconds since the epoch;
/// none if the clock stands before the epoch. Nothing is claimed of the
/// value.
#[verifier::external_body]
fn clock_seconds() -> Option<u64> {
    match SystemTime::now().duration_since(UNIX_EPOCH) {
        Ok(elapsed) => Some(elapsed.as_secs()),
        Err(_) => None,
    }
}

/// Seconds since the epoch on the system clock; zero if the clock stands
/// before the epoch.
pub(crate) fn now_unix_secs() -> u64 {
    match clock_seconds() {
        Some(seconds) => seconds,
        None => 0,
    }
}

/// Why a position operation left the position as it was.
#[derive(Debug, Clone, Copy, PartialEq, Eq, Structural)]
pub enum PositionError {
    /// A fill or a reduction of zero lots.
    QtyNotPositive,
    /// `open_new` on a position that holds lots.
    AlreadyOpen,
    /// `reduce` on a flat position.
    NothingToReduce,
    /// `close_all` on a flat position.
    NotOpen,
    /// The exact result is not a 64-bit amount.
    Overflow,
}

impl PositionError {
    pub open spec fn text(self) -> Seq<char> {
        match self {
            PositionError::QtyNotPositive => "qty must be positive"@,
            PositionError::AlreadyOpen => "position already open"@,
            PositionError::NothingToReduce => "no open position to reduce"@,
            PositionError::NotOpen => "no open position"@,
            PositionError::Overflow => "amount out of range"@,
        }
    }

    /// The text that names this error in a log line.
    pub fn message(&self) -> (s: &'static str)
        ensures
            s@ == self.text(),
    {
        match self {
            PositionError::QtyNotPositive => "qty must be positive",
            PositionError::AlreadyOpen => "position already open",
            PositionError::NothingToReduce => "no open position to reduce",
            PositionError::NotOpen => "no open position",
            PositionError::Overflow => "amount out of range",
        }
    }
}

/// A position as mathematics sees it: unbounded integers, no machine limits.
pub struct PositionView {
    pub symbol: Seq<char>,
    /// Lots held.
    pub quantity: nat,
    /// What the held lots cost: the sum of `quantity * price` over the fills
    /// that bought them.
    pub cost: nat,
    /// Fees paid for the held lots.
    pub fees: nat,
    pub entry_time: Option<u64>,
    pub realized_pnl: int,
    pub unrealized_pnl: int,
}

impl PositionView {
    pub open spec fn is_open(self) -> bool {
        self.quantity > 0
    }

    /// A position is either flat, with every open-only field cleared, or open
    /// with an entry time.
    pub open spec fn wf(self) -> bool {
        &&& self.quantity == 0 <==> self.entry_time is None
        &&& self.quantity == 0 ==> self.cost == 0 && self.fees == 0 && self.unrealized_pnl == 0
    }

    /// Every field is a 64-bit amount.
    pub open spec fn fits(self) -> bool {
        &&& fits_u64(self.quantity as int)
        &&& fits_u64(self.cost as int)
        &&& fits_u64(self.fees as int)
        &&& fits_i64(self.realized_pnl)
        &&& fits_i64(self.unrealized_pnl)
    }

    /// Volume-weighted average entry price in whole ticks; zero when flat.
    pub open spec fn entry_price(self) -> nat {
        if self.quantity == 0 {
            0
        } else {
            self.cost / self.quantity
        }
    }

    /// Fees paid per held lot in whole ticks; zero when flat.
    pub open spec fn avg_fee_per_unit(self) -> nat {
        if self.quantity == 0 {
            0
        } else {
            self.fees / self.quantity
        }
    }

    pub open spec fn notional(self, mark: nat) -> nat {
        self.quantity * mark
    }

    /// `(mark - entry) * quantity` less the fees paid, with the exact entry
    /// price; zero when flat.
    pub open spec fn unrealized_at(self, mark: nat) -> int {
        if self.quantity == 0 {
            0
        } else {
            self.quantity * mark - self.cost - self.fees
        }
    }

    /// The position after its unrealized PnL is recomputed at `mark`.
    pub open spec fn marked(self, mark: nat) -> PositionView {
        PositionView { unrealized_pnl: self.unrealized_at(mark), ..self }
    }

    /// `(mark - entry) / entry` in parts of `scale` with the exact entry
    /// price, rounded toward zero. Meaningful when the position is open at a
    /// positive cost.
    pub open spec fn return_at(self, mark: nat, scale: nat) -> int {
        div_toward_zero((self.quantity * mark - self.cost) * scale, self.cost as int)
    }

    /// `(mark - entry) / entry` in percent, rounded toward zero.
    pub open spec fn pct_at(self, mark: nat) -> int {
        self.return_at(mark, 100)
    }

    /// The unrealized return in parts per million, where it is defined: on
    /// an open position whose cost is not zero.
    pub open spec fn unrealized_ppm(self, mark: nat) -> Option<int> {
        if !self.is_open() || self.cost == 0 {
            None
        } else {
            Some(self.return_at(mark, 1_000_000))
        }
    }

    /// The unrealized return in percent, where it is defined: on an open
    /// position whose cost is not zero.
    pub open spec fn unrealized_pct(self, mark: nat) -> Option<int> {
        if !self.is_open() || self.cost == 0 {
            None
        } else {
            Some(self.pct_at(mark))
        }
    }

    /// A flat position after it is opened by one fill.
    pub open spec fn opened(self, qty: nat, price: nat, fee: nat, time: u64) -> PositionView {
        PositionView {
            quantity: qty,
            cost: qty * price,
            fees: fee,
            entry_time: Some(time),
            unrealized_pnl: 0,
            ..self
        }
    }

    /// The position after one more fill: opened if flat, merged otherwise.
    pub open spec fn filled(self, qty: nat, price: nat, fee: nat, time: u64) -> PositionView {
        if !self.is_open() {
            self.opened(qty, price, fee, time)
        } else {
            PositionView {
                quantity: self.quantity + qty,
                cost: self.cost + qty * price,
                fees: self.fees + fee,
                entry_time: if self.entry_time is None {
                    Some(time)
                } else {
                    self.entry_time
                },
                ..self
            }
        }
    }

    /// Lots that a reduction by `qty` closes: never more than are held.
    pub open spec fn closed_qty(self, qty: nat) -> nat {
        if qty < self.quantity {
            qty
        } else {
            self.quantity
        }
    }

    /// PnL realized by selling `closed_qty(qty)` lots at `price` for `fee`:
    /// proceeds less the closed lots' share of cost and of fees paid, less
    /// `fee`. The shares are rounded up; those of all held lots are the whole
    /// cost and all fees.
    pub open spec fn realized_on_reduce(self, qty: nat, price: nat, fee: nat) -> int {
        let closed = self.closed_qty(qty);
        closed * price - share(self.cost, closed, self.quantity) - share(
            self.fees,
            closed,
            self.quantity,
        ) - fee
    }

    /// The flat position that remains once everything is sold, with `realized`
    /// added to the lifetime total.
    pub open spec fn flattened(self, realized: int) -> PositionView {
        PositionView {
            quantity: 0,
            cost: 0,
            fees: 0,
            entry_time: None,
            realized_pnl: self.realized_pnl + realized,
            unrealized_pnl: 0,
            ..self
        }
    }

    /// The position after a reduction by `qty` lots.
    pub open spec fn reduced(self, qty: nat, price: nat, fee: nat) -> PositionView {
        let closed = self.closed_qty(qty);
        let realized = self.realized_on_reduce(qty, price, fee);
        if closed == self.quantity {
            self.flattened(realized)
        } else {
            PositionView {
                quantity: (self.quantity - closed) as nat,
                cost: (self.cost - share(self.cost, closed, self.quantity)) as nat,
                fees: (self.fees - share(self.fees, closed, self.quantity)) as nat,
                realized_pnl: self.realized_pnl + realized,
                ..self
            }
        }
    }

    /// PnL realized by selling every held lot at `price` for `fee`.
    pub open spec fn realized_on_close(self, price: nat, fee: nat) -> int {
        self.quantity * price - self.cost - self.fees - fee
    }

    /// The position after everything is sold.
    pub open spec fn closed(self, price: nat, fee: nat) -> PositionView {
        self.flattened(self.realized_on_close(price, fee))
    }

    /// Why `open_new` refuses, if it does.
    pub open spec fn open_new_error(self, qty: nat, price: nat, fee: nat) -> Option<PositionError> {
        if qty == 0 {
            Some(PositionError::QtyNotPositive)
        } else if self.is_open() {
            Some(PositionError::AlreadyOpen)
        } else if !self.opened(qty, price, fee, 0).fits() {
            Some(PositionError::Overflow)
        } else {
            None
        }
    }

    /// Why `add_fill` refuses, if it does.
    pub open spec fn add_fill_error(self, qty: nat, price: nat, fee: nat) -> Option<PositionError> {
        if qty == 0 {
            Some(PositionError::QtyNotPositive)
        } else if !self.filled(qty, price, fee, 0).fits() {
            Some(PositionError::Overflow)
        } else {
            None
        }
    }

    /// Why `reduce` refuses, if it does.
    pub open spec fn reduce_error(self, qty: nat, price: nat, fee: nat) -> Option<PositionError> {
        if qty == 0 {
            Some(PositionError::QtyNotPositive)
        } else if !self.is_open() {
            Some(PositionError::NothingToReduce)
        } else if !fits_i64(self.realized_on_reduce(qty, price, fee)) || !self.reduced(
            qty,
            price,
            fee,
        ).fits() {
            Some(PositionError::Overflow)
        } else {
            None
        }
    }

    /// Why `close_all` refuses, if it does.
    pub open spec fn close_all_error(self, price: nat, fee: nat) -> Option<PositionError> {
        if !self.is_open() {
            Some(PositionError::NotOpen)
        } else if !fits_i64(self.realized_on_close(price, fee)) || !self.closed(price, fee).fits() {
            Some(PositionError::Overflow)
        } else {
            None
        }
    }
}

/// Long-only position in one symbol.
#[derive(Debug, Clone)]
pub struct Position {
    pub symbol: String,
    /// Lots held.
    pub quantity: u64,
    /// Cost of the held lots, in ticks.
    pub cost: u64,
    /// Fees paid for the held lots, in ticks.
    pub fees: u64,
    /// When the position was opened, in seconds since the epoch.
    pub entry_time: Option<u64>,
    /// PnL realized over the position's lifetime.
    pub realized_pnl: i64,
    /// Unrealized PnL as last computed.
    pub unrealized_pnl: i64,
}

impl View for Position {
    type V = PositionView;

    open spec fn view(&self) -> PositionView {
        PositionView {
            symbol: self.symbol@,
            quantity: self.quantity as nat,
            cost: self.cost as nat,
            fees: self.fees as nat,
            entry_time: self.entry_time,
            realized_pnl: self.realized_pnl as int,
            unrealized_pnl: self.unrealized_pnl as int,
        }
    }
}

impl Position {
    pub open spec fn wf(&self) -> bool {
        self@.wf()
    }

    /// The flat position in `symbol` that has never traded.
    pub open spec fn empty_view(symbol: Seq<char>) -> PositionView {
        PositionView {
            symbol,
            quantity: 0,
            cost: 0,
            fees: 0,
            entry_time: None,
            realized_pnl: 0,
            unrealized_pnl: 0,
        }
    }

    /// A flat position in `symbol`.
    pub fn empty(symbol: &str) -> (p: Position)
        ensures
            p@ == Position::empty_view(symbol@),
            p.wf(),
    {
        Position {
            symbol: symbol.to_owned(),
            quantity: 0,
            cost: 0,
            fees: 0,
            entry_time: None,
            realized_pnl: 0,
            unrealized_pnl: 0,
        }
    }

    /// Whether lots are held.
    pub fn is_open(&self) -> (open: bool)
        ensures
            open == self@.is_open(),
    {
        self.quantity > 0
    }

    /// Value of the held lots at `mark_price`.
    pub fn notional(&self, mark_price: u64) -> (value: u128)
        ensures
            value == self@.notional(mark_price as nat),
    {
        wide_mul(self.quantity, mark_price)
    }

    /// Volume-weighted average entry price in whole ticks; zero when flat.
    pub fn entry_price(&self) -> (price: u64)
        ensures
            price == self@.entry_price(),
    {
        if self.quantity == 0 {
            0
        } else {
            self.cost / self.quantity
        }
    }

    /// Fees paid per held lot in whole ticks; zero when flat.
    pub fn avg_fee_per_unit(&self) -> (fee: u64)
        ensures
            fee == self@.avg_fee_per_unit(),
    {
        if self.quantity == 0 {
            0
        } else {
            self.fees / self.quantity
        }
    }

    /// Recomputes the unrealized PnL at `mark_price` and returns it. Fails, and
    /// changes nothing, exactly when the value is no 64-bit amount.
    pub fn update_unrealized(&mut self, mark_price: u64) -> (r: Result<i64, PositionError>)
        ensures
            fits_i64(old(self)@.unrealized_at(mark_price as nat)) ==> r == Ok::<i64, PositionError>(
                old(self)@.unrealized_at(mark_price as nat) as i64,
            ) && final(self)@ == old(self)@.marked(mark_price as nat),
            !fits_i64(old(self)@.unrealized_at(mark_price as nat)) ==> r == Err::<
                i64,
                PositionError,
            >(PositionError::Overflow) && *final(self) == *old(self),
            old(self).wf() ==> final(self).wf(),
    {
        if !self.is_open() {
            self.unrealized_pnl = 0;
            return Ok(0);
        }
        let value: u128 = wide_mul(self.quantity, mark_price);
        let paid: u128 = self.cost as u128 + self.fees as u128;
        match net(value, paid) {
            Some(pnl) => {
                self.unrealized_pnl = pnl;
                Ok(pnl)
            },
            None => Err(PositionError::Overflow),
        }
    }

    /// The unrealized return at `mark_price` in parts of `scale` of the
    /// entry price, rounded toward zero.
    fn scaled_return(&self, mark_price: u64, scale: u64) -> (r: Option<i64>)
        requires
            0 < scale <= 1_000_000,
        ensures
            !self@.is_open() || self.cost == 0 ==> r is None,
            self@.is_open() && self.cost > 0 ==> if fits_i64(
                self@.return_at(mark_price as nat, scale as nat),
            ) {
                r == Some(self@.return_at(mark_price as nat, scale as nat) as i64)
            } else {
                r is None
            },
    {
        if !self.is_open() || self.cost == 0 {
            return None;
        }
        let value: u128 = wide_mul(self.quantity, mark_price);
        let cost: u128 = self.cost as u128;
        let parts: u128 = scale as u128;
        if value >= cost {
            let gain: u128 = value - cost;
            let whole: u128 = gain / cost;
            let rest: u128 = gain % cost;
            proof {
                lemma_scaled_div(gain as int, cost as int, scale as int);
                assert(((rest * parts) as int) / (cost as int) >= 0) by (nonlinear_arith)
                    requires
                        rest >= 0,
                        parts > 0,
                        cost > 0,
                ;
                assert(whole * parts >= whole) by (nonlinear_arith)
                    requires
                        whole >= 0,
                        parts >= 1,
                ;
                assert(rest * parts <= 0xffff_ffff_ffff_ffff * 1_000_000) by (nonlinear_arith)
                    requires
                        0 <= rest <= 0xffff_ffff_ffff_ffff,
                        0 < parts <= 1_000_000,
                ;
                assert(gain * parts == (gain as int) * (scale as int));
            }
            if whole > 0x7fff_ffff_ffff_ffff {
                return None;
            }
            proof {
                assert(whole * parts <= 0x7fff_ffff_ffff_ffff * 1_000_000) by (nonlinear_arith)
                    requires
                        0 <= whole <= 0x7fff_ffff_ffff_ffff,
                        0 < parts <= 1_000_000,
                ;
                assert(((rest * parts) as int) / (cost as int) <= rest * parts)
                    by (nonlinear_arith)
                    requires
                        rest * parts >= 0,
                        cost > 0,
                ;
            }
            let scaled: u128 = whole * parts + (rest * parts) / cost;
            if scaled > 0x7fff_ffff_ffff_ffff {
                None
            } else {
                Some(scaled as i64)
            }
        } else {
            let loss: u128 = cost - value;
            proof {
                assert(loss * parts <= 0xffff_ffff_ffff_ffff * 1_000_000) by (nonlinear_arith)
                    requires
                        0 <= loss <= 0xffff_ffff_ffff_ffff,
                        0 < parts <= 1_000_000,
                ;
                assert(((loss * parts) as int) / (cost as int) <= parts) by (nonlinear_arith)
                    requires
                        0 <= loss <= cost,
                        parts > 0,
                        cost > 0,
                ;
                assert(((loss * parts) as int) / (cost as int) >= 0) by (nonlinear_arith)
                    requires
                        0 <= loss,
                        parts > 0,
                        cost > 0,
                ;
                assert((value - cost) * scale == -((loss * parts) as int)) by (nonlinear_arith)
                    requires
                        loss == cost - value,
                        parts == scale,
                        loss * parts >= 0,
                ;
            }
            let scaled: u128 = (loss * parts) / cost;
            let magnitude: i64 = scaled as i64;
            Some(-magnitude)
        }
    }

    /// The unrealized return at `mark_price` in percent of the entry price,
    /// rounded toward zero. `None` if the position is flat, if its cost is zero,
    /// or if the percentage is no 64-bit number.
    pub fn unrealized_pct(&self, mark_price: u64) -> (r: Option<i64>)
        ensures
            match self@.unrealized_pct(mark_price as nat) {
                Some(pct) => if fits_i64(pct) {
                    r == Some(pct as i64)
                } else {
                    r is None
                },
                None => r is None,
            },
    {
        self.scaled_return(mark_price, 100)
    }

    /// The unrealized return at `mark_price` in parts per million of the
    /// entry price, that is in ten-thousandths of a percent, rounded toward
    /// zero. `None` if the position is flat, if its cost is zero, or if the
    /// number is no 64-bit number.
    pub fn unrealized_ppm(&self, mark_price: u64) -> (r: Option<i64>)
        ensures
            match self@.unrealized_ppm(mark_price as nat) {
                Some(ppm) => if fits_i64(ppm) {
                    r == Some(ppm as i64)
                } else {
                    r is None
                },
                None => r is None,
            },
    {
        self.scaled_return(mark_price, 1_000_000)
    }

    /// Opens a flat position with one fill of `qty` lots at `price`, for which
    /// `fee` was paid. The entry time is `time_unix_secs`, or the system clock's
    /// reading where none is given.
    pub fn open_new(&mut self, qty: u64, price: u64, fee: u64, time_unix_secs: Option<u64>) -> (r:
        Result<(), PositionError>)
        ensures
            match old(self)@.open_new_error(qty as nat, price as nat, fee as nat) {
                Some(e) => r == Err::<(), PositionError>(e) && *final(self) == *old(self),
                None => {
                    &&& r is Ok
                    &&& final(self).entry_time is Some
                    &&& time_unix_secs is Some ==> final(self).entry_time == time_unix_secs
                    &&& final(self)@ == old(self)@.opened(
                        qty as nat,
                        price as nat,
                        fee as nat,
                        final(self).entry_time.unwrap(),
                    )
                },
            },
            old(self).wf() ==> final(self).wf(),
    {
        if qty == 0 {
            return Err(PositionError::QtyNotPositive);
        }
        if self.is_open() {
            return Err(PositionError::AlreadyOpen);
        }
        let notional: u128 = wide_mul(qty, price);
        if notional > u64::MAX as u128 {
            return Err(PositionError::Overflow);
        }
        let time: u64 = match time_unix_secs {
            Some(t) => t,
            None => now_unix_secs(),
        };
        self.quantity = qty;
        self.cost = notional as u64;
        self.fees = fee;
        self.entry_time = Some(time);
        self.unrealized_pnl = 0;
        Ok(())
    }

    /// Adds a fill of `qty` lots at `price`: opens the position if it is flat,
    /// otherwise merges the fill, so that the entry price becomes the
    /// quantity-weighted average of the old entry price and `price`.
    pub fn add_fill(&mut self, qty: u64, price: u64, fee: u64, time_unix_secs: Option<u64>) -> (r:
        Result<(), PositionError>)
        ensures
            match old(self)@.add_fill_error(qty as nat, price as nat, fee as nat) {
                Some(e) => r == Err::<(), PositionError>(e) && *final(self) == *old(self),
                None => {
                    &&& r is Ok
                    &&& final(self).entry_time is Some
                    &&& old(self).entry_time is Some && old(self)@.is_open()
                        ==> final(self).entry_time == old(self).entry_time
                    &&& time_unix_secs is Some && (old(self).entry_time is None
                        || !old(self)@.is_open())
                        ==> final(self).entry_time == time_unix_secs
                    &&& final(self)@ == old(self)@.filled(
                        qty as nat,
                        price as nat,
                        fee as nat,
                        final(self).entry_time.unwrap(),
                    )
                },
            },
            old(self).wf() ==> final(self).wf(),
    {
        if qty == 0 {
            return Err(PositionError::QtyNotPositive);
        }
        if !self.is_open() {
            return self.open_new(qty, price, fee, time_unix_secs);
        }
        let quantity: u64 = match self.quantity.checked_add(qty) {
            Some(q) => q,
            None => {
                return Err(PositionError::Overflow);
            },
        };
        let notional: u128 = wide_mul(qty, price);
        proof {
            lemma_mul_le(qty as nat, price as nat, u64::MAX as nat, u64::MAX as nat);
            assert(u64::MAX * u64::MAX + u64::MAX < u128::MAX) by (nonlinear_arith);
        }
        let cost: u128 = self.cost as u128 + notional;
        if cost > u64::MAX as u128 {
            return Err(PositionError::Overflow);
        }
        let fees: u64 = match self.fees.checked_add(fee) {
            Some(f) => f,
            None => {
                return Err(PositionError::Overflow);
            },
        };
        if self.entry_time.is_none() {
            let time: u64 = match time_unix_secs {
                Some(t) => t,
                None => now_unix_secs(),
            };
            self.entry_time = Some(time);
        }
        self.quantity = quantity;
        self.cost = cost as u64;
        self.fees = fees;
        Ok(())
    }

    /// Sells up to `qty` lots at `price` for `fee` and returns the PnL that this
    /// realizes. No more than the held lots are sold; selling all of them leaves
    /// the position flat, selling fewer leaves entry price, fee per lot and
    /// entry time as they were.
    pub fn reduce(&mut self, qty: u64, price: u64, fee: u64) -> (r: Result<i64, PositionError>)
        ensures
            r is Ok && qty < old(self).quantity ==> {
                &&& final(self)@.is_open()
                &&& final(self)@.entry_price() == old(self)@.entry_price()
                &&& final(self)@.avg_fee_per_unit() == old(self)@.avg_fee_per_unit()
                &&& final(self).entry_time == old(self).entry_time
            },
            match old(self)@.reduce_error(qty as nat, price as nat, fee as nat) {
                Some(e) => r == Err::<i64, PositionError>(e) && *final(self) == *old(self),
                None => {
                    &&& r == Ok::<i64, PositionError>(
                        old(self)@.realized_on_reduce(qty as nat, price as nat, fee as nat) as i64,
                    )
                    &&& final(self)@ == old(self)@.reduced(qty as nat, price as nat, fee as nat)
                },
            },
            old(self).wf() ==> final(self).wf(),
    {
        if qty == 0 {
            return Err(PositionError::QtyNotPositive);
        }
        if !self.is_open() {
            return Err(PositionError::NothingToReduce);
        }
        let held: u64 = self.quantity;
        let closed: u64 = if qty < held {
            qty
        } else {
            held
        };
        let cost_share: u64 = prorate(self.cost, closed, held);
        let fee_share: u64 = prorate(self.fees, closed, held);
        proof {
            lemma_share_bounds(self.cost as nat, closed as nat, held as nat);
            lemma_share_bounds(self.fees as nat, closed as nat, held as nat);
        }
        let proceeds: u128 = wide_mul(closed, price);
        let paid: u128 = cost_share as u128 + fee_share as u128 + fee as u128;
        let realized: i64 = match net(proceeds, paid) {
            Some(v) => v,
            None => {
                return Err(PositionError::Overflow);
            },
        };
        let total: i64 = match sum_i64(self.realized_pnl, realized) {
            Some(v) => v,
            None => {
                return Err(PositionError::Overflow);
            },
        };
        self.realized_pnl = total;
        if closed == held {
            self.quantity = 0;
            self.cost = 0;
            self.fees = 0;
            self.entry_time = None;
            self.unrealized_pnl = 0;
        } else {
            self.quantity = held - closed;
            self.cost = self.cost - cost_share;
            self.fees = self.fees - fee_share;
        }
        Ok(realized)
    }

    /// Sells every held lot at `price` for `fee` and returns the PnL that this
    /// realizes. The position is flat afterwards.
    pub fn close_all(&mut self, price: u64, fee: u64) -> (r: Result<i64, PositionError>)
        ensures
            match old(self)@.close_all_error(price as nat, fee as nat) {
                Some(e) => r == Err::<i64, PositionError>(e) && *final(self) == *old(self),
                None => {
                    &&& r == Ok::<i64, PositionError>(
                        old(self)@.realized_on_close(price as nat, fee as nat) as i64,
                    )
                    &&& final(self)@ == old(self)@.closed(price as nat, fee as nat)
                },
            },
            old(self).wf() ==> final(self).wf(),
    {
        if !self.is_open() {
            return Err(PositionError::NotOpen);
        }
        let proceeds: u128 = wide_mul(self.quantity, price);
        let paid: u128 = self.cost as u128 + self.fees as u128 + fee as u128;
        let realized: i64 = match net(proceeds, paid) {
            Some(v) => v,
            None => {
                return Err(PositionError::Overflow);
            },
        };
        let total: i64 = match sum_i64(self.realized_pnl, realized) {
            Some(v) => v,
            None => {
                return Err(PositionError::Overflow);
            },
        };
        self.realized_pnl = total;
        self.quantity = 0;
        self.cost = 0;
        self.fees = 0;
        self.entry_time = None;
        self.unrealized_pnl = 0;
        Ok(realized)
    }
}

/// One fill of a sequence: lots bought, the price of each, the fee paid and
/// the time of the fill.
pub struct Fill {
    pub qty: nat,
    pub price: nat,
    pub fee: nat,
    pub time: u64,
}

/// Lots bought by `fills`.
pub open spec fn total_qty(fills: Seq<Fill>) -> nat
    decreases fills.len(),
{
    if fills.len() == 0 {
        0
    } else {
        total_qty(fills.drop_last()) + fills.last().qty
    }
}

/// What `fills` cost: the sum of `qty * price`.
pub open spec fn total_notional(fills: Seq<Fill>) -> nat
    decreases fills.len(),
{
    if fills.len() == 0 {
        0
    } else {
        total_notional(fills.drop_last()) + fills.last().qty * fills.last().price
    }
}

/// Fees paid for `fills`.
pub open spec fn total_fees(fills: Seq<Fill>) -> nat
    decreases fills.len(),
{
    if fills.len() == 0 {
        0
    } else {
        total_fees(fills.drop_last()) + fills.last().fee
    }
}

impl PositionView {
    /// The position after `fills`, applied in order.
    pub open spec fn filled_all(self, fills: Seq<Fill>) -> PositionView
        decreases fills.len(),
    {
        if fills.len() == 0 {
            self
        } else {
            let last = fills.last();
            self.filled_all(fills.drop_last()).filled(last.qty, last.price, last.fee, last.time)
        }
    }

    /// Flat, zero entry price and no entry time come together or not at all.
    pub open spec fn flat_iff_cleared(self) -> bool {
        &&& self.quantity == 0 <==> self.entry_price() == 0
        &&& self.quantity == 0 <==> self.entry_time is None
    }
}

/// After any sequence of fills of at least one lot each, the quantity is the
/// sum of the fills' quantities and the cost is the sum of their notionals, on
/// top of what was held before. The entry price is therefore the
/// quantity-weighted average of the fill prices (and of the old entry price),
/// in whole ticks.
pub proof fn lemma_fills_average(v: PositionView, fills: Seq<Fill>)
    requires
        v.wf(),
        forall|i: int| 0 <= i < fills.len() ==> fills[i].qty > 0,
    ensures
        v.filled_all(fills).wf(),
        v.filled_all(fills).quantity == v.quantity + total_qty(fills),
        v.filled_all(fills).cost == v.cost + total_notional(fills),
        v.filled_all(fills).fees == v.fees + total_fees(fills),
        v.filled_all(fills).realized_pnl == v.realized_pnl,
        fills.len() > 0 ==> v.filled_all(fills).is_open() && v.filled_all(fills).entry_price() == (
        v.cost + total_notional(fills)) / (v.quantity + total_qty(fills)),
    decreases fills.len(),
{
    if fills.len() > 0 {
        let head = fills.drop_last();
        assert forall|i: int| 0 <= i < head.len() implies head[i].qty > 0 by {
            assert(head[i] == fills[i]);
        }
        lemma_fills_average(v, head);
    }
}

/// Every operation keeps a well-formed position well-formed, and keeps "flat",
/// "entry price zero" and "no entry time" together, provided that fills are
/// of at least one lot and come at a price of at least one tick.
pub proof fn lemma_flatness_kept(
    v: PositionView,
    qty: nat,
    price: nat,
    fee: nat,
    time: u64,
    mark: nat,
)
    requires
        v.wf(),
        v.flat_iff_cleared(),
    ensures
        qty > 0 && price > 0 && !v.is_open() ==> v.opened(qty, price, fee, time).wf() && v.opened(
            qty,
            price,
            fee,
            time,
        ).flat_iff_cleared(),
        qty > 0 && price > 0 ==> v.filled(qty, price, fee, time).wf() && v.filled(
            qty,
            price,
            fee,
            time,
        ).flat_iff_cleared(),
        v.is_open() ==> v.reduced(qty, price, fee).wf() && v.reduced(
            qty,
            price,
            fee,
        ).flat_iff_cleared(),
        v.closed(price, fee).wf() && v.closed(price, fee).flat_iff_cleared(),
        v.marked(mark).wf() && v.marked(mark).flat_iff_cleared(),
{
    if price > 0 && qty > 0 {
        let o = v.opened(qty, price, fee, time);
        assert(o.cost >= o.quantity) by (nonlinear_arith)
            requires
                o.cost == qty * price,
                o.quantity == qty,
                price > 0,
        ;
        lemma_at_least_one(o.cost, o.quantity);
        if v.is_open() {
            let f = v.filled(qty, price, fee, time);
            lemma_at_least_one(v.cost, v.quantity);
            assert(f.cost >= f.quantity) by (nonlinear_arith)
                requires
                    f.cost == v.cost + qty * price,
                    f.quantity == v.quantity + qty,
                    v.cost >= v.quantity,
                    price > 0,
            ;
            lemma_at_least_one(f.cost, f.quantity);
        }
    }
    if v.is_open() {
        let closed = v.closed_qty(qty);
        let r = v.reduced(qty, price, fee);
        lemma_share_bounds(v.cost, closed, v.quantity);
        lemma_share_bounds(v.fees, closed, v.quantity);
        lemma_at_least_one(v.cost, v.quantity);
        if closed < v.quantity {
            lemma_at_least_one(r.cost, r.quantity);
        }
    }
}

/// Every operation that the position accepts keeps it well-formed.
pub proof fn lemma_wf_kept(v: PositionView, qty: nat, price: nat, fee: nat, time: u64, mark: nat)
    requires
        v.wf(),
    ensures
        qty > 0 ==> v.filled(qty, price, fee, time).wf(),
        v.is_open() ==> v.reduced(qty, price, fee).wf(),
        v.closed(price, fee).wf(),
        v.marked(mark).wf(),
{
    if v.is_open() {
        lemma_share_bounds(v.cost, v.closed_qty(qty), v.quantity);
        lemma_share_bounds(v.fees, v.closed_qty(qty), v.quantity);
    }
}

/// With a positive divisor, the quotient is at least one exactly when the
/// dividend is at least the divisor.
proof fn lemma_at_least_one(x: nat, d: nat)
    by (nonlinear_arith)
    requires
        d > 0,
    ensures
        x / d >= 1 <==> x >= d,
        x / d == 0 <==> x < d,
{
}

/// Opening a flat position and closing it at once at the same price, with no
/// closing fee, leaves it flat and realizes exactly the loss of the opening fee.
pub proof fn lemma_round_trip(v: PositionView, qty: nat, price: nat, fee: nat, time: u64)
    requires
        !v.is_open(),
    ensures
        v.opened(qty, price, fee, time).realized_on_close(price, 0) == -fee,
        v.opened(qty, price, fee, time).closed(price, 0).quantity == 0,
        v.opened(qty, price, fee, time).closed(price, 0).realized_pnl == v.realized_pnl - fee,
        v.opened(qty, price, fee, time).closed(price, 0).wf(),
{
}

/// Marking twice at the same price gives the same unrealized PnL as marking
/// once, and marking changes neither the quantity nor the cost, hence not the
/// entry price.
pub proof fn lemma_mark_idempotent(v: PositionView, mark: nat)
    ensures
        v.marked(mark).unrealized_at(mark) == v.unrealized_at(mark),
        v.marked(mark).marked(mark) == v.marked(mark),
        v.marked(mark).quantity == v.quantity,
        v.marked(mark).cost == v.cost,
        v.marked(mark).entry_price() == v.entry_price(),
{
}

/// A reduction by fewer lots than are held leaves the position open with the
/// entry price, the fee per lot and the entry time that it had.
pub proof fn lemma_reduce_keeps_averages(v: PositionView, qty: nat, price: nat, fee: nat)
    requires
        qty < v.quantity,
    ensures
        v.reduced(qty, price, fee).is_open(),
        v.reduced(qty, price, fee).quantity == v.quantity - qty,
        v.reduced(qty, price, fee).entry_price() == v.entry_price(),
        v.reduced(qty, price, fee).avg_fee_per_unit() == v.avg_fee_per_unit(),
        v.reduced(qty, price, fee).entry_time == v.entry_time,
{
    lemma_share_bounds(v.cost, qty, v.quantity);
    lemma_share_bounds(v.fees, qty, v.quantity);
}

/// A reduction by at least the held quantity sells exactly the held lots: it
/// is the same as closing everything, and leaves the position flat. No
/// reduction sells more than is held.
pub proof fn lemma_reduce_clamps(v: PositionView, qty: nat, price: nat, fee: nat)
    requires
        v.is_open(),
    ensures
        v.closed_qty(qty) <= v.quantity,
        v.reduced(qty, price, fee).quantity == v.quantity - v.closed_qty(qty),
        qty >= v.quantity ==> {
            &&& v.closed_qty(qty) == v.quantity
            &&& v.realized_on_reduce(qty, price, fee) == v.realized_on_close(price, fee)
            &&& v.reduced(qty, price, fee) == v.closed(price, fee)
            &&& v.reduced(qty, price, fee).quantity == 0
        },
{
    lemma_share_bounds(v.cost, v.closed_qty(qty), v.quantity);
    lemma_share_bounds(v.fees, v.closed_qty(qty), v.quantity);
}

/// Candles that a symbol must have before it is entered.
pub const WARM_UP: usize = 32;

/// Periods of the fast and the slow average and of the oscillators.
pub const FAST_PERIOD: usize = 12;

pub const SLOW_PERIOD: usize = 26;

pub const RSI_PERIOD: usize = 14;

pub const ATR_PERIOD: usize = 14;

/// Entries wait while the relative strength index is at or above this.
pub const RSI_CEILING: u64 = 60;

/// A position is closed at a loss of this many percent, or at a gain of
/// `TAKE_PROFIT_PCT`.
pub const STOP_LOSS_PCT: i64 = -2;

pub const TAKE_PROFIT_PCT: i64 = 4;

/// The largest notional of one entry: ten thousand units of the quote
/// currency, in ticks.
pub const MAX_ENTRY_NOTIONAL: u64 = 10_000 * TICKS_PER_UNIT;

/// A trend-following strategy: it enters when the fast average of the closes
/// is above the slow one and the market is not overbought, sizes the entry
/// by the capital at risk over the average true range, and leaves at a fixed
/// loss or gain.
pub struct Fourier {}

impl Fourier {
    /// Whether the strategy enters on `ctx` with `capital` at hand.
    pub open spec fn enters(ctx: ExecContextView, capital: int) -> bool {
        &&& !ctx.position.is_open()
        &&& ctx.candles.len() >= WARM_UP
        &&& capital > 0
        &&& match (
            ema_series_of(closes_of(ctx.candles), FAST_PERIOD as nat),
            ema_series_of(closes_of(ctx.candles), SLOW_PERIOD as nat),
            rsi_of(closes_of(ctx.candles), RSI_PERIOD as nat),
        ) {
            (Some(fast), Some(slow), Some(rsi)) => fast > slow && rsi < RSI_CEILING,
            _ => false,
        }
    }

    /// The lots that an entry on `ctx` buys with `capital` at hand: a fiftieth
    /// of the capital over the risk per lot, which is the average true range,
    /// or a hundredth of the last close where there is none, and at least one
    /// tick; but no more than `MAX_ENTRY_NOTIONAL` buys at the last close, and
    /// no more than the capital buys at the last close. Zero without capital
    /// or without a price.
    pub open spec fn entry_size(ctx: ExecContextView, capital: int) -> nat {
        let atr: nat = match atr_of(ctx.candles, ATR_PERIOD as nat) {
            Some(a) => a,
            None => (ctx.last_close / 100) as nat,
        };
        let risk_capital: int = if capital > 0 {
            capital / 50
        } else {
            0
        };
        if risk_capital == 0 || ctx.last_close == 0 {
            0
        } else {
            let per_lot: int = if atr >= 1 {
                atr as int
            } else {
                1
            };
            let by_risk: int = risk_capital / per_lot;
            let by_cap: int = MAX_ENTRY_NOTIONAL as int / ctx.last_close as int;
            let by_funds: int = capital / ctx.last_close as int;
            let capped: int = if by_risk <= by_cap {
                by_risk
            } else {
                by_cap
            };
            if capped <= by_funds {
                capped as nat
            } else {
                by_funds as nat
            }
        }
    }

    /// The order that the strategy enters with, if it has lots to buy.
    pub open spec fn sized_order(ctx: ExecContextView, capital: int) -> Option<OrderView> {
        if Fourier::entry_size(ctx, capital) == 0 {
            None
        } else {
            Some(
                OrderView {
                    pair: ctx.symbol + "/USD"@,
                    side: OrderSide::Buy,
                    order_type: OrderType::Market,
                    quantity: Fourier::entry_size(ctx, capital) as u64,
                    price: None,
                },
            )
        }
    }

    /// Whether the strategy closes the position of `ctx`: the unrealized
    /// return at the last close is defined and is at or beyond a threshold.
    pub open spec fn leaves(ctx: ExecContextView) -> bool {
        match ctx.position.unrealized_pct(ctx.last_close as nat) {
            Some(pct) => pct <= STOP_LOSS_PCT || pct >= TAKE_PROFIT_PCT,
            None => false,
        }
    }
}

/// No position loses more than all it cost.
pub proof fn lemma_pct_floor(v: PositionView, mark: nat)
    requires
        v.cost > 0,
    ensures
        v.pct_at(mark) >= -100,
{
    let gain = v.quantity * mark;
    let x = (gain - v.cost) * 100;
    let c = v.cost as int;
    if x < 0 {
        assert((-x) / c <= 100) by (nonlinear_arith)
            requires
                0 < -x <= 100 * c,
                c > 0,
        ;
    } else {
        assert(x / c >= 0) by (nonlinear_arith)
            requires
                x >= 0,
                c > 0,
        ;
    }
}

/// The thresholds on the percentage, which is rounded toward zero, are the
/// thresholds on the exact return: the stop triggers exactly when the value
/// at the mark is at most 98% of the cost, the take-profit exactly when it
/// is at least 104% of it.
pub proof fn lemma_thresholds_exact(v: PositionView, mark: nat)
    requires
        v.cost > 0,
    ensures
        v.pct_at(mark) <= STOP_LOSS_PCT <==> (v.quantity * mark) * 100 <= 98 * v.cost,
        v.pct_at(mark) >= TAKE_PROFIT_PCT <==> (v.quantity * mark) * 100 >= 104 * v.cost,
{
    let x = (v.quantity * mark - v.cost) * 100;
    let c = v.cost as int;
    assert(x == (v.quantity * mark) * 100 - 100 * c) by (nonlinear_arith)
        requires
            x == (v.quantity * mark - c) * 100,
    ;
    if x >= 0 {
        assert(x / c >= 4 <==> x >= 4 * c) by (nonlinear_arith)
            requires
                x >= 0,
                c > 0,
        ;
        assert(x / c >= 0) by (nonlinear_arith)
            requires
                x >= 0,
                c > 0,
        ;
    } else {
        let y = -x;
        assert(y / c >= 2 <==> y >= 2 * c) by (nonlinear_arith)
            requires
                y > 0,
                c > 0,
        ;
        assert(y / c >= 0) by (nonlinear_arith)
            requires
                y > 0,
                c > 0,
        ;
    }
}

/// The lots that `MAX_ENTRY_NOTIONAL` buys at `price`; none at no price.
fn guarded_max_size(price: u64) -> (lots: u64)
    ensures
        price == 0 ==> lots == 0,
        price > 0 ==> lots == MAX_ENTRY_NOTIONAL as int / price as int,
{
    if price == 0 {
        return 0;
    }
    MAX_ENTRY_NOTIONAL / price
}

impl Strategy for Fourier {
    open spec fn wants_entry(&self, ctx: ExecContextView, capital: int) -> bool {
        Fourier::enters(ctx, capital)
    }

    open spec fn entry_order(&self, ctx: ExecContextView, capital: int) -> Option<OrderView> {
        Fourier::sized_order(ctx, capital)
    }

    open spec fn wants_exit(&self, ctx: ExecContextView, capital: int) -> bool {
        Fourier::leaves(ctx)
    }

    fn should_long(&self, ctx: &ExecContext, shared: &SharedState) -> (enter: bool) {
        if ctx.position.is_open() {
            return false;
        }
        if ctx.candles.len() < WARM_UP {
            return false;
        }
        let indicators = Indicators::new(ctx.candles.as_slice());
        let fast = indicators.ema(FAST_PERIOD);
        let slow = indicators.ema(SLOW_PERIOD);
        let rsi = indicators.rsi(RSI_PERIOD);
        if shared.capital <= 0 {
            return false;
        }
        match (fast, slow, rsi) {
            (Some(fast), Some(slow), Some(rsi)) => fast > slow && rsi < RSI_CEILING,
            _ => false,
        }
    }

    fn go_long(&self, ctx: &ExecContext, shared: &SharedState) -> (order: Option<Order>) {
        let indicators = Indicators::new(ctx.candles.as_slice());
        let atr: u64 = match indicators.atr(ATR_PERIOD) {
            Some(a) => a,
            None => ctx.last_close / 100,
        };
        let risk_capital: i64 = if shared.capital > 0 {
            shared.capital / 50
        } else {
            0
        };
        if risk_capital == 0 || ctx.last_close == 0 {
            return None;
        }
        let per_lot: u64 = if atr >= 1 {
            atr
        } else {
            1
        };
        let by_risk: u64 = (risk_capital as u64) / per_lot;
        let by_cap: u64 = guarded_max_size(ctx.last_close);
        let by_funds: u64 = (shared.capital as u64) / ctx.last_close;
        let capped: u64 = if by_risk <= by_cap {
            by_risk
        } else {
            by_cap
        };
        let size: u64 = if capped <= by_funds {
            capped
        } else {
            by_funds
        };
        proof {
            let funds = shared.capital as int;
            let price = ctx.last_close as int;
            assert((funds / price) * price <= funds) by (nonlinear_arith)
                requires
                    funds > 0,
                    price > 0,
            ;
            assert(size * price <= (funds / price) * price) by (nonlinear_arith)
                requires
                    0 <= size <= funds / price,
                    price > 0,
            ;
        }
        if size == 0 {
            return None;
        }
        let mut pair: String = ctx.symbol.clone();
        pair.append("/USD");
        Some(
            Order {
                pair,
                side: OrderSide::Buy,
                order_type: OrderType::Market,
                quantity: size,
                price: None,
            },
        )
    }

    fn update_position(&self, ctx: &ExecContext, shared: &SharedState) -> (close: bool) {
        if !ctx.position.is_open() {
            return false;
        }
        proof {
            if ctx.position.cost > 0 {
                lemma_pct_floor(ctx.position@, ctx.last_close as nat);
            }
        }
        match ctx.position.unrealized_pct(ctx.last_close) {
            Some(pct) => pct <= STOP_LOSS_PCT || pct >= TAKE_PROFIT_PCT,
            None => ctx.position.cost > 0,
        }
    }
}

} // verus!
