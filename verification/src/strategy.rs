//! Per-symbol execution contexts, the strategy protocol, fills, and the engine
//! that ties them together.
use vstd::prelude::*;
use vstd::string::StringExecFns;
use crate::arith::{fits_i64, fits_u64, lemma_wide_bound, shift_i64, wide_mul};
use crate::fourier::{now_unix_secs, Candle, Position, PositionError, PositionView};
use crate::order_engine::OrderWithResponse;
use crate::roostoo::{free_in, BalanceResponse, OrderDetail, OrderSide, OrderType};

verus! {

/// Candles kept per symbol; older ones are dropped first.
pub const MAX_CANDLE_HISTORY: usize = 2048;

/// The newest `cap` items of `s`, or all of `s` if it holds no more.
pub open spec fn newest(s: Seq<Candle>, cap: nat) -> Seq<Candle> {
    if s.len() <= cap {
        s
    } else {
        s.subrange(s.len() - cap, s.len() as int)
    }
}

/// Drops the oldest items until at most `cap` are left.
pub fn keep_newest(candles: &mut Vec<Candle>, cap: usize)
    ensures
        final(candles)@ == newest(old(candles)@, cap as nat),
{
    let len: usize = candles.len();
    if len > cap {
        let excess: usize = len - cap;
        let mut dropped: usize = 0;
        while dropped < excess
            invariant
                dropped <= excess,
                excess == old(candles)@.len() - cap,
                candles@ == old(candles)@.subrange(dropped as int, old(candles)@.len() as int),
            decreases excess - dropped,
        {
            candles.remove(0);
            dropped += 1;
        }
    }
}

/// An execution context as mathematics sees it.
pub struct ExecContextView {
    pub symbol: Seq<char>,
    pub candles: Seq<Candle>,
    pub position: PositionView,
    pub last_close: u64,
    pub last_signal: i64,
    pub precision: u64,
}

impl ExecContextView {
    /// The position is well-formed and the history is within its cap.
    pub open spec fn wf(self) -> bool {
        &&& self.position.wf()
        &&& self.candles.len() <= MAX_CANDLE_HISTORY
    }

    /// The context after it has absorbed `candle`: the candle joins the
    /// history, which is cut to its cap, the last close follows, and the
    /// position is marked at the new close where that gives a 64-bit amount.
    pub open spec fn updated(self, candle: Candle) -> ExecContextView {
        ExecContextView {
            last_close: candle.close,
            candles: newest(self.candles.push(candle), MAX_CANDLE_HISTORY as nat),
            position: if fits_i64(self.position.unrealized_at(candle.close as nat)) {
                self.position.marked(candle.close as nat)
            } else {
                self.position
            },
            ..self
        }
    }

    /// Why the position cannot be marked at the close of `candle`, if it
    /// cannot: the unrealized PnL there is no 64-bit amount.
    pub open spec fn mark_fault(self, candle: Candle) -> Option<PositionError> {
        if fits_i64(self.position.unrealized_at(candle.close as nat)) {
            None
        } else {
            Some(PositionError::Overflow)
        }
    }

    /// Why a holding of `qty` lots cannot be taken over, where it should be:
    /// a flat position is seeded with a positive quantity at a positive last
    /// close, and may refuse the fill.
    pub open spec fn seed_fault(self, qty: u64) -> Option<PositionError> {
        if qty > 0 && !self.position.is_open() && self.last_close > 0 {
            self.position.add_fill_error(qty as nat, self.last_close as nat, 0)
        } else {
            None
        }
    }

    /// The context after a holding of `qty` lots, found at the venue, is
    /// taken over at the last close: only a flat position is seeded, only with
    /// a positive quantity at a positive price, and only where the position
    /// accepts the fill.
    pub open spec fn seeded(self, qty: u64, now: u64) -> ExecContextView {
        if qty > 0 && !self.position.is_open() && self.last_close > 0
            && self.position.add_fill_error(qty as nat, self.last_close as nat, 0) is None {
            ExecContextView {
                position: self.position.filled(qty as nat, self.last_close as nat, 0, now),
                ..self
            }
        } else {
            self
        }
    }
}

/// State of one traded symbol: recent candles, the position, the last close
/// and the number of decimal digits of one lot.
#[derive(Debug)]
pub struct ExecContext {
    pub symbol: String,
    pub candles: Vec<Candle>,
    pub position: Position,
    pub last_close: u64,
    pub last_signal: i64,
    pub precision: u64,
}

impl View for ExecContext {
    type V = ExecContextView;

    open spec fn view(&self) -> ExecContextView {
        ExecContextView {
            symbol: self.symbol@,
            candles: self.candles@,
            position: self.position@,
            last_close: self.last_close,
            last_signal: self.last_signal,
            precision: self.precision,
        }
    }
}

impl ExecContext {
    pub open spec fn wf(&self) -> bool {
        self@.wf()
    }

    /// A context for `symbol` with no history and a flat position.
    pub fn new(symbol: &str, precision: u64) -> (ctx: ExecContext)
        ensures
            ctx.wf(),
            ctx@.symbol == symbol@,
            ctx@.candles == Seq::<Candle>::empty(),
            ctx@.position == Position::empty_view(symbol@),
            ctx.last_close == 0,
            ctx.last_signal == 0,
            ctx.precision == precision,
    {
        ExecContext {
            symbol: symbol.to_owned(),
            candles: Vec::new(),
            position: Position::empty(symbol),
            last_close: 0,
            last_signal: 0,
            precision,
        }
    }

    /// Absorbs `candle`. Hands back the position's refusal to be marked at
    /// the new close, if it refuses: the unrealized PnL then stays as it was.
    pub fn update(&mut self, candle: Candle) -> (fault: Option<PositionError>)
        ensures
            fault == old(self)@.mark_fault(candle),
            final(self)@ == old(self)@.updated(candle),
            old(self)@.position.wf() ==> final(self).wf(),
    {
        self.last_close = candle.close;
        self.candles.push(candle);
        keep_newest(&mut self.candles, MAX_CANDLE_HISTORY);
        match self.position.update_unrealized(self.last_close) {
            Ok(_) => None,
            Err(e) => Some(e),
        }
    }

    /// Takes over a holding of `qty` lots found at the venue, at the last
    /// close and without a fee, with `now` as the entry time. Hands back the
    /// position's refusal, if it refuses.
    pub fn seed(&mut self, qty: u64, now: u64) -> (fault: Option<PositionError>)
        ensures
            fault == old(self)@.seed_fault(qty),
            final(self)@ == old(self)@.seeded(qty, now),
            old(self).wf() ==> final(self).wf(),
    {
        if qty > 0 && !self.position.is_open() && self.last_close > 0 {
            match self.position.add_fill(qty, self.last_close, 0, Some(now)) {
                Ok(()) => None,
                Err(e) => Some(e),
            }
        } else {
            None
        }
    }
}

/// Capital shared by every symbol's decisions, in ticks.
#[derive(Debug, Clone, Copy, PartialEq, Eq, Structural)]
pub struct SharedState {
    pub capital: i64,
    pub streak: u64,
}

/// An order as mathematics sees it.
pub struct OrderView {
    pub pair: Seq<char>,
    pub side: OrderSide,
    pub order_type: OrderType,
    pub quantity: u64,
    pub price: Option<u64>,
}

/// A request to trade `quantity` lots of `pair`.
#[derive(Debug, Clone)]
pub struct Order {
    pub pair: String,
    pub side: OrderSide,
    pub order_type: OrderType,
    pub quantity: u64,
    pub price: Option<u64>,
}

impl View for Order {
    type V = OrderView;

    open spec fn view(&self) -> OrderView {
        OrderView {
            pair: self.pair@,
            side: self.side,
            order_type: self.order_type,
            quantity: self.quantity,
            price: self.price,
        }
    }
}

/// Why a fill changed neither the position nor the capital.
#[derive(Debug, Clone, Copy, PartialEq, Eq, Structural)]
pub enum FillError {
    /// The confirmation names a side that is neither `BUY` nor `SELL`.
    UnknownSide,
    /// The capital after the fill is no 64-bit amount.
    Capital,
    /// The position refused the fill.
    Position(PositionError),
}

/// The capital after a fill: a buy takes `qty * price + fee` from it, a sale
/// adds `qty * price - fee` to it.
pub open spec fn capital_after(capital: int, side: OrderSide, qty: nat, price: nat, fee: nat) -> int {
    match side {
        OrderSide::Buy => capital - (qty * price + fee),
        OrderSide::Sell => capital + (qty * price - fee),
    }
}

/// Why the position refuses a fill, if it does: a buy is added, a sale reduces.
pub open spec fn position_fault(
    p: PositionView,
    side: OrderSide,
    qty: nat,
    price: nat,
    fee: nat,
) -> Option<PositionError> {
    match side {
        OrderSide::Buy => p.add_fill_error(qty, price, fee),
        OrderSide::Sell => p.reduce_error(qty, price, fee),
    }
}

/// The position after a fill that it accepts.
pub open spec fn position_after(
    p: PositionView,
    side: OrderSide,
    qty: nat,
    price: nat,
    fee: nat,
    now: u64,
) -> PositionView {
    match side {
        OrderSide::Buy => p.filled(qty, price, fee, now),
        OrderSide::Sell => p.reduced(qty, price, fee),
    }
}

/// Why a fill is not applied, if it is not.
pub open spec fn fill_fault(
    p: PositionView,
    capital: int,
    side: OrderSide,
    qty: nat,
    price: nat,
    fee: nat,
) -> Option<FillError> {
    if !fits_i64(capital_after(capital, side, qty, price, fee)) {
        Some(FillError::Capital)
    } else {
        match position_fault(p, side, qty, price, fee) {
            Some(e) => Some(FillError::Position(e)),
            None => None,
        }
    }
}

/// Fee of a simulated fill: a thousandth of the notional, rounded down.
pub open spec fn simulated_fee(qty: nat, price: nat) -> nat {
    (qty * price) / 1000
}

/// Why a simulated fill is not applied, if it is not.
pub open spec fn simulated_fault(
    p: PositionView,
    capital: int,
    side: OrderSide,
    qty: nat,
    price: nat,
) -> Option<FillError> {
    if !fits_u64(simulated_fee(qty, price) as int) {
        Some(FillError::Position(PositionError::Overflow))
    } else {
        fill_fault(p, capital, side, qty, price, simulated_fee(qty, price))
    }
}

/// Why a confirmed fill is not applied, if it is not.
pub open spec fn confirmed_fault(p: PositionView, capital: int, detail: OrderDetail) -> Option<
    FillError,
> {
    match OrderSide::named_by(detail.side@) {
        None => Some(FillError::UnknownSide),
        Some(side) => fill_fault(
            p,
            capital,
            side,
            detail.filled_quantity as nat,
            detail.filled_aver_price as nat,
            detail.commission_charge_value as nat,
        ),
    }
}

impl SharedState {
    /// Books a fill on the capital. Returns whether it did: it does not, and
    /// changes nothing, exactly when the new capital is no 64-bit amount.
    pub fn settle(&mut self, side: OrderSide, qty: u64, price: u64, fee: u64) -> (booked: bool)
        ensures
            booked == fits_i64(
                capital_after(old(self).capital as int, side, qty as nat, price as nat, fee as nat),
            ),
            booked ==> final(self).capital == capital_after(
                old(self).capital as int,
                side,
                qty as nat,
                price as nat,
                fee as nat,
            ) && final(self).streak == old(self).streak,
            !booked ==> *final(self) == *old(self),
    {
        let notional: u128 = wide_mul(qty, price);
        proof {
            lemma_wide_bound(qty as nat, price as nat, fee as nat);
            lemma_wide_bound(qty as nat, price as nat, 0);
            lemma_wide_bound(0, 0, fee as nat);
        }
        let capital: Option<i64> = match side {
            OrderSide::Buy => shift_i64(self.capital, 0, notional + fee as u128),
            OrderSide::Sell => shift_i64(self.capital, notional, fee as u128),
        };
        match capital {
            Some(c) => {
                self.capital = c;
                true
            },
            None => false,
        }
    }
}

/// Applies one fill to a position and to the capital: both change, or, where
/// the fill cannot be booked, neither does.
pub fn apply_fill(
    position: &mut Position,
    shared: &mut SharedState,
    side: OrderSide,
    qty: u64,
    price: u64,
    fee: u64,
    now: u64,
) -> (r: Result<(), FillError>)
    ensures
        match fill_fault(
            old(position)@,
            old(shared).capital as int,
            side,
            qty as nat,
            price as nat,
            fee as nat,
        ) {
            Some(e) => r == Err::<(), FillError>(e) && *final(position) == *old(position)
                && *final(shared) == *old(shared),
            None => {
                &&& r is Ok
                &&& final(position)@ == position_after(
                    old(position)@,
                    side,
                    qty as nat,
                    price as nat,
                    fee as nat,
                    now,
                )
                &&& final(shared).capital == capital_after(
                    old(shared).capital as int,
                    side,
                    qty as nat,
                    price as nat,
                    fee as nat,
                )
                &&& final(shared).streak == old(shared).streak
            },
        },
        old(position).wf() ==> final(position).wf(),
{
    let mut booked = *shared;
    if !booked.settle(side, qty, price, fee) {
        return Err(FillError::Capital);
    }
    let outcome: Result<(), PositionError> = match side {
        OrderSide::Buy => position.add_fill(qty, price, fee, Some(now)),
        OrderSide::Sell => match position.reduce(qty, price, fee) {
            Ok(_) => Ok(()),
            Err(e) => Err(e),
        },
    };
    match outcome {
        Ok(()) => {
            *shared = booked;
            Ok(())
        },
        Err(e) => Err(FillError::Position(e)),
    }
}

/// Applies a fill of `qty` lots at `price` as the simulated venue makes it:
/// for a fee of a thousandth of the notional.
pub fn simulated_fill(
    position: &mut Position,
    shared: &mut SharedState,
    side: OrderSide,
    qty: u64,
    price: u64,
    now: u64,
) -> (r: Result<(), FillError>)
    ensures
        match simulated_fault(
            old(position)@,
            old(shared).capital as int,
            side,
            qty as nat,
            price as nat,
        ) {
            Some(e) => r == Err::<(), FillError>(e) && *final(position) == *old(position)
                && *final(shared) == *old(shared),
            None => {
                &&& r is Ok
                &&& final(position)@ == position_after(
                    old(position)@,
                    side,
                    qty as nat,
                    price as nat,
                    simulated_fee(qty as nat, price as nat),
                    now,
                )
                &&& final(shared).capital == capital_after(
                    old(shared).capital as int,
                    side,
                    qty as nat,
                    price as nat,
                    simulated_fee(qty as nat, price as nat),
                )
                &&& final(shared).streak == old(shared).streak
            },
        },
        old(position).wf() ==> final(position).wf(),
{
    let fee: u128 = wide_mul(qty, price) / 1000;
    if fee > u64::MAX as u128 {
        return Err(FillError::Position(PositionError::Overflow));
    }
    apply_fill(position, shared, side, qty, price, fee as u64, now)
}

/// Applies a fill that the venue confirmed: the side, the filled quantity, the
/// average price and the commission are those of `detail`.
pub fn confirmed_fill(
    position: &mut Position,
    shared: &mut SharedState,
    detail: &OrderDetail,
    now: u64,
) -> (r: Result<(), FillError>)
    ensures
        match confirmed_fault(old(position)@, old(shared).capital as int, *detail) {
            Some(e) => r == Err::<(), FillError>(e) && *final(position) == *old(position)
                && *final(shared) == *old(shared),
            None => {
                &&& r is Ok
                &&& final(position)@ == position_after(
                    old(position)@,
                    OrderSide::named_by(detail.side@).unwrap(),
                    detail.filled_quantity as nat,
                    detail.filled_aver_price as nat,
                    detail.commission_charge_value as nat,
                    now,
                )
                &&& final(shared).capital == capital_after(
                    old(shared).capital as int,
                    OrderSide::named_by(detail.side@).unwrap(),
                    detail.filled_quantity as nat,
                    detail.filled_aver_price as nat,
                    detail.commission_charge_value as nat,
                )
                &&& final(shared).streak == old(shared).streak
            },
        },
        old(position).wf() ==> final(position).wf(),
{
    match OrderSide::from_wire(detail.side.as_str()) {
        None => Err(FillError::UnknownSide),
        Some(side) => apply_fill(
            position,
            shared,
            side,
            detail.filled_quantity,
            detail.filled_aver_price,
            detail.commission_charge_value,
            now,
        ),
    }
}

/// What the books hold at cost: capital, plus the cost of the held lots and
/// the fees paid for them, less the PnL that was realized.
pub open spec fn book_value(p: PositionView, capital: int) -> int {
    capital + p.cost + p.fees - p.realized_pnl
}

/// A fill moves value between the capital and the position and loses
/// none: whatever a buy takes from the capital the position holds as cost
/// and fees, and whatever a sale of held lots adds to the capital is cost
/// and fees released plus PnL realized. A sale of more than is held is booked
/// in full on the capital while the position gives only what it holds.
pub proof fn lemma_fill_conserves(
    p: PositionView,
    capital: int,
    side: OrderSide,
    qty: nat,
    price: nat,
    fee: nat,
    now: u64,
)
    requires
        p.wf(),
        side == OrderSide::Sell ==> qty <= p.quantity,
    ensures
        book_value(
            position_after(p, side, qty, price, fee, now),
            capital_after(capital, side, qty, price, fee),
        ) == book_value(p, capital),
{
    if side == OrderSide::Sell && p.quantity > 0 {
        crate::arith::lemma_share_bounds(p.cost, p.closed_qty(qty), p.quantity);
        crate::arith::lemma_share_bounds(p.fees, p.closed_qty(qty), p.quantity);
    }
    if side == OrderSide::Sell && p.quantity == 0 {
        assert(qty * price == 0) by (nonlinear_arith)
            requires
                qty == 0,
        ;
    }
}

/// A trading strategy: three decisions, each taken on one symbol's context
/// and the shared capital. A strategy decides; it changes nothing. What it
/// decides is a function of itself, the context and the capital: the three
/// models say which. A strategy that states no model of its own is taken to
/// answer by some such function.
pub trait Strategy: Sized {
    /// Whether the strategy enters on `ctx` with `capital` at hand.
    open spec fn wants_entry(&self, ctx: ExecContextView, capital: int) -> bool {
        arbitrary::<spec_fn(Self, ExecContextView, int, bool) -> bool>()(*self, ctx, capital, true)
    }

    /// The order that the strategy enters with on `ctx` with `capital` at
    /// hand, if it has one.
    open spec fn entry_order(&self, ctx: ExecContextView, capital: int) -> Option<OrderView> {
        arbitrary::<spec_fn(Self, ExecContextView, int) -> Option<OrderView>>()(
            *self,
            ctx,
            capital,
        )
    }

    /// Whether the strategy closes the position of `ctx` with `capital` at
    /// hand.
    open spec fn wants_exit(&self, ctx: ExecContextView, capital: int) -> bool {
        arbitrary::<spec_fn(Self, ExecContextView, int, bool) -> bool>()(
            *self,
            ctx,
            capital,
            false,
        )
    }

    /// Whether to enter now. Never on a symbol whose position is open.
    fn should_long(&self, ctx: &ExecContext, shared: &SharedState) -> (enter: bool)
        ensures
            enter == self.wants_entry(ctx@, shared.capital as int),
            ctx@.position.is_open() ==> !enter,
    ;

    /// The order to enter with, or none where sizing gives nothing to buy
    /// or more than the capital buys at the last close.
    fn go_long(&self, ctx: &ExecContext, shared: &SharedState) -> (order: Option<Order>)
        ensures
            match self.entry_order(ctx@, shared.capital as int) {
                Some(o) => order is Some && order.unwrap()@ == o,
                None => order is None,
            },
            order is Some ==> order.unwrap().quantity > 0 && order.unwrap().quantity
                * ctx.last_close <= shared.capital,
    ;

    /// Whether to close the open position now.
    fn update_position(&self, ctx: &ExecContext, shared: &SharedState) -> (close: bool)
        ensures
            close == self.wants_exit(ctx@, shared.capital as int),
    ;
}

/// One candle of one symbol, as it arrives.
#[derive(Debug, Clone)]
pub struct CandleData {
    pub symbol: String,
    pub candle: Candle,
}

/// A holding that exists at the venue before the engine starts.
#[derive(Debug, Clone)]
pub struct Holding {
    pub symbol: String,
    pub quantity: u64,
}

/// What an engine is made of.
pub struct TraderConfig<T: Strategy> {
    pub initial_capital: i64,
    pub strategy: T,
    pub initial_positions: Vec<Holding>,
}

/// Events between two reconciliations, per registered symbol.
pub const SYNC_EVERY: u128 = 15;

/// Where the engine stands between two events.
#[derive(Debug, Clone, Copy, PartialEq, Eq, Structural)]
pub enum Phase {
    /// Waiting for the next candle.
    Idle,
    /// The context at this index is checked out; a closing order is at the venue.
    Closing(usize),
    /// The context at this index is checked out; an opening order is at the venue.
    Opening(usize),
    /// A balance query is under way.
    Reconciling,
}

/// What the engine's driver has to do before the next event.
pub enum Action {
    /// Fetch the next candle.
    Next,
    /// Send the order to the venue and come back with its reply.
    Dispatch(OrderWithResponse),
    /// Query the balances and come back with the reply.
    QueryBalance,
}

/// An action as mathematics sees it.
pub enum ActionView {
    Next,
    Dispatch(OrderView, u64),
    QueryBalance,
}

impl View for Action {
    type V = ActionView;

    open spec fn view(&self) -> ActionView {
        match self {
            Action::Next => ActionView::Next,
            Action::Dispatch(envelope) => ActionView::Dispatch(envelope.order@, envelope.precision),
            Action::QueryBalance => ActionView::QueryBalance,
        }
    }
}

/// What happens to the engine.
pub enum Event {
    /// A candle arrived.
    Candle(CandleData),
    /// The venue answered an order, or failed to.
    Fill(Option<OrderDetail>),
    /// The venue answered a balance query, or failed to.
    Balance(Option<BalanceResponse>),
}

impl Event {
    /// The confirmation that this event carries, if it carries one.
    pub open spec fn fill(self) -> Option<OrderDetail> {
        match self {
            Event::Fill(detail) => detail,
            _ => None,
        }
    }

    /// The balances that this event carries, if it carries any.
    pub open spec fn wallet(self) -> Option<BalanceResponse> {
        match self {
            Event::Balance(wallet) => wallet,
            _ => None,
        }
    }
}

/// The first index from `from` on at which `contexts` holds `symbol`.
pub open spec fn find_context(contexts: Seq<ExecContextView>, symbol: Seq<char>, from: int) -> Option<
    int,
>
    decreases contexts.len() - from,
{
    if from < 0 || from >= contexts.len() {
        None
    } else if contexts[from].symbol == symbol {
        Some(from)
    } else {
        find_context(contexts, symbol, from + 1)
    }
}

/// The first index from `from` on at which `holdings` names `symbol`.
pub open spec fn find_holding(holdings: Seq<(Seq<char>, u64)>, symbol: Seq<char>, from: int) -> Option<
    int,
>
    decreases holdings.len() - from,
{
    if from < 0 || from >= holdings.len() {
        None
    } else if holdings[from].0 == symbol {
        Some(from)
    } else {
        find_holding(holdings, symbol, from + 1)
    }
}

/// No two of `holdings` name the same symbol.
pub open spec fn named_once(holdings: Seq<(Seq<char>, u64)>) -> bool {
    forall|i: int, j: int|
        0 <= i < j < holdings.len() ==> (#[trigger] holdings[i]).0 != (#[trigger] holdings[j]).0
}

/// `holdings` with `qty` lots of `symbol`: in the place of an older holding
/// of that symbol if there is one, at the end otherwise.
pub open spec fn with_holding(holdings: Seq<(Seq<char>, u64)>, symbol: Seq<char>, qty: u64) -> Seq<
    (Seq<char>, u64),
> {
    match find_holding(holdings, symbol, 0) {
        Some(h) => holdings.update(h, (symbol, qty)),
        None => holdings.push((symbol, qty)),
    }
}

/// The holdings that `list` names, each symbol once: a later entry for a
/// symbol replaces an earlier one.
pub open spec fn merged(list: Seq<(Seq<char>, u64)>) -> Seq<(Seq<char>, u64)>
    decreases list.len(),
{
    if list.len() == 0 {
        Seq::empty()
    } else {
        with_holding(merged(list.drop_last()), list.last().0, list.last().1)
    }
}

/// The symbols and quantities of `holdings`.
pub open spec fn holdings_view(holdings: Seq<Holding>) -> Seq<(Seq<char>, u64)> {
    holdings.map_values(|h: Holding| (h.symbol@, h.quantity))
}

/// What `find_holding` finds is the first holding of that symbol, and where
/// it finds none there is none.
pub proof fn lemma_find_holding(holdings: Seq<(Seq<char>, u64)>, symbol: Seq<char>, from: int)
    requires
        0 <= from,
    ensures
        match find_holding(holdings, symbol, from) {
            Some(h) => from <= h < holdings.len() && holdings[h].0 == symbol,
            None => forall|j: int| from <= j < holdings.len() ==> holdings[j].0 != symbol,
        },
    decreases holdings.len() - from,
{
    if from < holdings.len() && holdings[from].0 != symbol {
        lemma_find_holding(holdings, symbol, from + 1);
    }
}

/// Holdings keep naming each symbol once when one is put in or taken out.
pub proof fn lemma_named_once_kept(
    holdings: Seq<(Seq<char>, u64)>,
    symbol: Seq<char>,
    qty: u64,
    h: int,
)
    requires
        named_once(holdings),
    ensures
        named_once(with_holding(holdings, symbol, qty)),
        0 <= h < holdings.len() ==> named_once(holdings.remove(h)),
{
    lemma_find_holding(holdings, symbol, 0);
    if 0 <= h < holdings.len() {
        let less = holdings.remove(h);
        assert forall|i: int, j: int| 0 <= i < j < less.len() implies (#[trigger] less[i]).0 != (
        #[trigger] less[j]).0 by {
            let a = if i < h {
                i
            } else {
                i + 1
            };
            let b = if j < h {
                j
            } else {
                j + 1
            };
            assert(less[i] == holdings[a]);
            assert(less[j] == holdings[b]);
        }
    }
}

/// Merged holdings name each symbol once.
pub proof fn lemma_merged_once(list: Seq<(Seq<char>, u64)>)
    ensures
        named_once(merged(list)),
    decreases list.len(),
{
    if list.len() > 0 {
        lemma_merged_once(list.drop_last());
        lemma_named_once_kept(merged(list.drop_last()), list.last().0, list.last().1, 0);
    }
}

/// Where a holding of `symbol` waits in `holdings`, if one does.
fn locate_named(holdings: &Vec<Holding>, symbol: &String) -> (found: Option<usize>)
    ensures
        match found {
            Some(h) => find_holding(holdings_view(holdings@), symbol@, 0) == Some(h as int) && h
                < holdings.len(),
            None => find_holding(holdings_view(holdings@), symbol@, 0) is None,
        },
{
    let mut h: usize = 0;
    while h < holdings.len()
        invariant
            h <= holdings.len(),
            find_holding(holdings_view(holdings@), symbol@, 0) == find_holding(
                holdings_view(holdings@),
                symbol@,
                h as int,
            ),
        decreases holdings.len() - h,
    {
        if holdings[h].symbol == *symbol {
            return Some(h);
        }
        h += 1;
    }
    None
}

/// What `find_context` finds is the first context of that symbol, and where
/// it finds none there is none.
pub proof fn lemma_find_context(contexts: Seq<ExecContextView>, symbol: Seq<char>, from: int)
    requires
        0 <= from,
    ensures
        match find_context(contexts, symbol, from) {
            Some(i) => from <= i < contexts.len() && contexts[i].symbol == symbol && forall|j: int|
                from <= j < i ==> contexts[j].symbol != symbol,
            None => forall|j: int| from <= j < contexts.len() ==> contexts[j].symbol != symbol,
        },
    decreases contexts.len() - from,
{
    if from < contexts.len() && contexts[from].symbol != symbol {
        lemma_find_context(contexts, symbol, from + 1);
    }
}

/// The order that closes the position of `ctx`: a market sale of all of it.
pub open spec fn close_order(ctx: ExecContextView) -> OrderView {
    OrderView {
        pair: ctx.symbol + "/USD"@,
        side: OrderSide::Sell,
        order_type: OrderType::Market,
        quantity: ctx.position.quantity as u64,
        price: None,
    }
}

/// A freshly registered context.
pub open spec fn fresh_context(symbol: Seq<char>, precision: u64) -> ExecContextView {
    ExecContextView {
        symbol,
        candles: Seq::empty(),
        position: Position::empty_view(symbol),
        last_close: 0,
        last_signal: 0,
        precision,
    }
}

/// The engine as mathematics sees it.
pub struct EngineView {
    /// One context per registered symbol.
    pub contexts: Seq<ExecContextView>,
    pub shared: SharedState,
    /// Holdings at the venue that no context has taken over yet.
    pub holdings: Seq<(Seq<char>, u64)>,
    /// Events processed since the last reconciliation fell due.
    pub since_sync: nat,
    pub phase: Phase,
    /// The fills that the last step could not book, in their order.
    pub faults: Seq<FillError>,
}

impl EngineView {
    pub open spec fn wf(self) -> bool {
        &&& forall|i: int| 0 <= i < self.contexts.len() ==> (#[trigger] self.contexts[i]).wf()
        &&& forall|i: int, j: int|
            0 <= i < j < self.contexts.len() ==> (#[trigger] self.contexts[i]).symbol != (
            #[trigger] self.contexts[j]).symbol
        &&& named_once(self.holdings)
        &&& self.since_sync == 0 || self.since_sync < SYNC_EVERY * self.contexts.len()
        &&& match self.phase {
            Phase::Closing(i) => i < self.contexts.len(),
            Phase::Opening(i) => i < self.contexts.len(),
            _ => true,
        }
    }

    /// Where the context of `symbol` is, if the symbol is registered.
    pub open spec fn index_of(self, symbol: Seq<char>) -> Option<int> {
        find_context(self.contexts, symbol, 0)
    }

    /// The engine after `symbol` is registered: its context is fresh, in the
    /// place of an older one for that symbol if there was one.
    pub open spec fn registered(self, symbol: Seq<char>, precision: u64) -> EngineView {
        match self.index_of(symbol) {
            Some(i) => EngineView {
                contexts: self.contexts.update(i, fresh_context(symbol, precision)),
                ..self
            },
            None => EngineView {
                contexts: self.contexts.push(fresh_context(symbol, precision)),
                ..self
            },
        }
    }

    /// The engine after the context at `i` has absorbed `candle` and, where a
    /// holding waits for its symbol, has used that holding up. A position
    /// that cannot be marked at the new close, and a holding that cannot be
    /// taken over, are noted as faults.
    pub open spec fn absorbed(self, i: int, candle: Candle, now: u64) -> EngineView {
        let ctx = self.contexts[i].updated(candle);
        let marked = match self.contexts[i].mark_fault(candle) {
            Some(e) => self.faults.push(FillError::Position(e)),
            None => self.faults,
        };
        match find_holding(self.holdings, ctx.symbol, 0) {
            Some(h) => EngineView {
                contexts: self.contexts.update(i, ctx.seeded(self.holdings[h].1, now)),
                holdings: self.holdings.remove(h),
                faults: match ctx.seed_fault(self.holdings[h].1) {
                    Some(e) => marked.push(FillError::Position(e)),
                    None => marked,
                },
                ..self
            },
            None => EngineView { contexts: self.contexts.update(i, ctx), faults: marked, ..self },
        }
    }

    /// The engine after a fill on the context at `i`; where `fault` stands in
    /// its way, the fault is noted and nothing else changes.
    pub open spec fn traded(
        self,
        i: int,
        fault: Option<FillError>,
        side: OrderSide,
        qty: nat,
        price: nat,
        fee: nat,
        now: u64,
    ) -> EngineView {
        if fault is Some {
            EngineView { faults: self.faults.push(fault.unwrap()), ..self }
        } else {
            EngineView {
                contexts: self.contexts.update(
                    i,
                    ExecContextView {
                        position: position_after(
                            self.contexts[i].position,
                            side,
                            qty,
                            price,
                            fee,
                            now,
                        ),
                        ..self.contexts[i]
                    },
                ),
                shared: SharedState {
                    capital: capital_after(self.shared.capital as int, side, qty, price, fee) as i64,
                    ..self.shared
                },
                ..self
            }
        }
    }

    /// The engine after a simulated fill of `qty` lots at the last close of
    /// the context at `i`.
    pub open spec fn simulated(self, i: int, side: OrderSide, qty: nat, now: u64) -> EngineView {
        let ctx = self.contexts[i];
        self.traded(
            i,
            simulated_fault(ctx.position, self.shared.capital as int, side, qty, ctx.last_close as nat),
            side,
            qty,
            ctx.last_close as nat,
            simulated_fee(qty, ctx.last_close as nat),
            now,
        )
    }

    /// The engine after the venue's reply to an order for the context at `i`:
    /// a confirmation is booked, the lack of one changes nothing.
    pub open spec fn confirmed(self, i: int, reply: Option<OrderDetail>, now: u64) -> EngineView {
        match reply {
            None => self,
            Some(detail) => self.traded(
                i,
                confirmed_fault(self.contexts[i].position, self.shared.capital as int, detail),
                OrderSide::named_by(detail.side@).unwrap(),
                detail.filled_quantity as nat,
                detail.filled_aver_price as nat,
                detail.commission_charge_value as nat,
                now,
            ),
        }
    }

    /// The end of an event: the event is counted, and every
    /// `SYNC_EVERY * symbols`-th one makes a live engine reconcile.
    pub open spec fn finished(self, backtesting: bool) -> (EngineView, ActionView) {
        if self.since_sync + 1 >= SYNC_EVERY * self.contexts.len() {
            if backtesting {
                (EngineView { since_sync: 0, phase: Phase::Idle, ..self }, ActionView::Next)
            } else {
                (
                    EngineView { since_sync: 0, phase: Phase::Reconciling, ..self },
                    ActionView::QueryBalance,
                )
            }
        } else {
            (
                EngineView { since_sync: self.since_sync + 1, phase: Phase::Idle, ..self },
                ActionView::Next,
            )
        }
    }

    /// The entry stage of an event on the context at `i`, where the strategy
    /// came back with `entry`: an order is filled at once when simulating and
    /// sent to the venue otherwise; without one the event ends.
    pub open spec fn entered(self, i: int, now: u64, backtesting: bool, entry: Option<OrderView>) -> (
        EngineView,
        ActionView,
    ) {
        match entry {
            None => self.finished(backtesting),
            Some(order) => if backtesting {
                self.simulated(i, OrderSide::Buy, order.quantity as nat, now).finished(backtesting)
            } else {
                (
                    EngineView { phase: Phase::Opening(i as usize), ..self },
                    ActionView::Dispatch(order, self.contexts[i].precision),
                )
            },
        }
    }

    /// The exit stage of an event on the context at `i`, where the strategy,
    /// asked only if the position is open, came back with `close`: the whole
    /// position is sold at once when simulating, and a closing order is sent to
    /// the venue otherwise. The entry stage follows unless an order is sent.
    pub open spec fn managed(
        self,
        i: int,
        now: u64,
        backtesting: bool,
        close: bool,
        entry: Option<OrderView>,
    ) -> (EngineView, ActionView) {
        let ctx = self.contexts[i];
        if ctx.position.is_open() && close {
            if backtesting {
                self.simulated(i, OrderSide::Sell, ctx.position.quantity, now).entered(
                    i,
                    now,
                    backtesting,
                    entry,
                )
            } else {
                (
                    EngineView { phase: Phase::Closing(i as usize), ..self },
                    ActionView::Dispatch(close_order(ctx), ctx.precision),
                )
            }
        } else {
            self.entered(i, now, backtesting, entry)
        }
    }

    /// The exit stage alone, where the strategy came back with `close`: what
    /// the engine is afterwards, and the closing order if one goes out.
    pub open spec fn exited(self, i: int, now: u64, backtesting: bool, close: bool) -> (
        EngineView,
        Option<ActionView>,
    ) {
        let ctx = self.contexts[i];
        if ctx.position.is_open() && close {
            if backtesting {
                (self.simulated(i, OrderSide::Sell, ctx.position.quantity, now), None)
            } else {
                (
                    EngineView { phase: Phase::Closing(i as usize), ..self },
                    Some(ActionView::Dispatch(close_order(ctx), ctx.precision)),
                )
            }
        } else {
            (self, None)
        }
    }

    /// What `strategy` answers when it is asked whether to close the
    /// position of the context at `i`: it is asked only if the position is
    /// open, on the context and the capital as they stand.
    pub open spec fn exit_answer<S: Strategy>(self, strategy: S, i: int) -> bool {
        self.contexts[i].position.is_open() && strategy.wants_exit(
            self.contexts[i],
            self.shared.capital as int,
        )
    }

    /// What `strategy` answers when it is asked to enter on the context at
    /// `i`, on the context and the capital as they stand: its order, if it
    /// wants to enter and has one.
    pub open spec fn entry_answer<S: Strategy>(self, strategy: S, i: int) -> Option<OrderView> {
        if strategy.wants_entry(self.contexts[i], self.shared.capital as int) {
            strategy.entry_order(self.contexts[i], self.shared.capital as int)
        } else {
            None
        }
    }

    /// The entry stage with the answer of `strategy`.
    pub open spec fn entered_by<S: Strategy>(
        self,
        strategy: S,
        i: int,
        now: u64,
        backtesting: bool,
    ) -> (EngineView, ActionView) {
        self.entered(i, now, backtesting, self.entry_answer(strategy, i))
    }

    /// The exit stage with the answer of `strategy`, and, unless a closing
    /// order goes out, the entry stage with its answer on what the exit
    /// stage left.
    pub open spec fn managed_by<S: Strategy>(
        self,
        strategy: S,
        i: int,
        now: u64,
        backtesting: bool,
    ) -> (EngineView, ActionView) {
        let (after, order) = self.exited(i, now, backtesting, self.exit_answer(strategy, i));
        match order {
            Some(action) => (after, action),
            None => after.entered_by(strategy, i, now, backtesting),
        }
    }

    /// The engine after a balance query: the free `USD` balance of the spot
    /// wallet replaces the capital; without a reply, or without that balance,
    /// the capital stays.
    pub open spec fn reconciled(self, wallet: Option<BalanceResponse>) -> EngineView {
        match wallet {
            Some(w) => match free_in(w.spot_wallet@, "USD"@) {
                Some(free) => EngineView {
                    shared: SharedState { capital: free, ..self.shared },
                    ..self
                },
                None => self,
            },
            None => self,
        }
    }

    /// The engine after a capital sync, and what the sync hands back. With a
    /// confirmation, the fill is booked on the capital alone and its
    /// quantity, price and fee are handed back; nothing happens where the side
    /// is unknown or the capital would be no 64-bit amount. Without one, the
    /// balances are taken as in `reconciled`.
    pub open spec fn synced(self, details: Option<OrderDetail>, wallet: Option<BalanceResponse>) -> (
        EngineView,
        Option<(u64, u64, u64)>,
    ) {
        match details {
            Some(d) => match OrderSide::named_by(d.side@) {
                Some(side) => {
                    let capital = capital_after(
                        self.shared.capital as int,
                        side,
                        d.filled_quantity as nat,
                        d.filled_aver_price as nat,
                        d.commission_charge_value as nat,
                    );
                    if fits_i64(capital) {
                        (
                            EngineView {
                                shared: SharedState { capital: capital as i64, ..self.shared },
                                ..self
                            },
                            Some(
                                (d.filled_quantity, d.filled_aver_price, d.commission_charge_value),
                            ),
                        )
                    } else {
                        (self, None)
                    }
                },
                None => (self, None),
            },
            None => (self.reconciled(wallet), None),
        }
    }

    /// One step of the engine: the state and the action after `event`, where
    /// the strategy, as far as it was asked, came back with `close` and
    /// `entry`.
    ///
    /// Idle, the engine takes a candle: one for an unregistered symbol is
    /// dropped; otherwise the symbol's context absorbs it and the exit and
    /// entry stages follow. Anything else is dropped. While an order is at
    /// the venue the engine takes the reply and goes on where it left; an event
    /// that carries no confirmation counts as a failed order. While a balance
    /// query is under way it takes the balances.
    pub open spec fn advanced(
        self,
        event: Event,
        now: u64,
        backtesting: bool,
        close: bool,
        entry: Option<OrderView>,
    ) -> (EngineView, ActionView) {
        match self.phase {
            Phase::Idle => match event {
                Event::Candle(data) => match self.index_of(data.symbol@) {
                    Some(i) => self.absorbed(i, data.candle, now).managed(
                        i,
                        now,
                        backtesting,
                        close,
                        entry,
                    ),
                    None => (self, ActionView::Next),
                },
                _ => (self, ActionView::Next),
            },
            Phase::Closing(i) => self.confirmed(i as int, event.fill(), now).entered(
                i as int,
                now,
                backtesting,
                entry,
            ),
            Phase::Opening(i) => self.confirmed(i as int, event.fill(), now).finished(backtesting),
            Phase::Reconciling => (
                EngineView { phase: Phase::Idle, ..self.reconciled(event.wallet()) },
                ActionView::Next,
            ),
        }
    }

    /// One step of the engine that decides by `strategy`. Idle, it takes a
    /// candle: the symbol's context absorbs it, the strategy is asked on the
    /// absorbed context whether to close, and, unless a closing order goes
    /// out, on what the exit stage left whether to enter. With a closing order
    /// at the venue it takes the reply and asks, on what the reply left,
    /// whether to enter. Everything else is as in `advanced`.
    pub open spec fn advanced_by<S: Strategy>(
        self,
        strategy: S,
        event: Event,
        now: u64,
        backtesting: bool,
    ) -> (EngineView, ActionView) {
        match self.phase {
            Phase::Idle => match event {
                Event::Candle(data) => match self.index_of(data.symbol@) {
                    Some(i) => self.absorbed(i, data.candle, now).managed_by(
                        strategy,
                        i,
                        now,
                        backtesting,
                    ),
                    None => (self, ActionView::Next),
                },
                _ => (self, ActionView::Next),
            },
            Phase::Closing(i) => self.confirmed(i as int, event.fill(), now).entered_by(
                strategy,
                i as int,
                now,
                backtesting,
            ),
            Phase::Opening(i) => self.confirmed(i as int, event.fill(), now).finished(backtesting),
            Phase::Reconciling => (
                EngineView { phase: Phase::Idle, ..self.reconciled(event.wallet()) },
                ActionView::Next,
            ),
        }
    }

    /// One step of the engine that decides by `strategy`, with the faults of
    /// the step before forgotten.
    pub open spec fn step_by<S: Strategy>(
        self,
        strategy: S,
        event: Event,
        now: u64,
        backtesting: bool,
    ) -> (EngineView, ActionView) {
        (EngineView { faults: Seq::empty(), ..self }).advanced_by(
            strategy,
            event,
            now,
            backtesting,
        )
    }

    /// One step of the engine, as `advanced` describes it, with the faults of
    /// the step before forgotten: after a step, `faults` holds the fills that
    /// this step could not book.
    pub open spec fn step(
        self,
        event: Event,
        now: u64,
        backtesting: bool,
        close: bool,
        entry: Option<OrderView>,
    ) -> (EngineView, ActionView) {
        (EngineView { faults: Seq::empty(), ..self }).advanced(
            event,
            now,
            backtesting,
            close,
            entry,
        )
    }
}

impl EngineView {
    /// The context that `event` is about: the one of the candle's symbol
    /// when the engine is idle, the one that is checked out while an order is
    /// at the venue.
    pub open spec fn subject(self, event: Event) -> Option<int> {
        match self.phase {
            Phase::Idle => match event {
                Event::Candle(data) => self.index_of(data.symbol@),
                _ => None,
            },
            Phase::Closing(i) => Some(i as int),
            Phase::Opening(i) => Some(i as int),
            Phase::Reconciling => None,
        }
    }
}

/// A step that decides by a strategy is the step for the answers that the
/// strategy gives: what holds of a step whatever the answers holds of it.
pub proof fn lemma_step_by_answers<S: Strategy>(
    v: EngineView,
    strategy: S,
    event: Event,
    now: u64,
    backtesting: bool,
) -> (answers: (bool, Option<OrderView>))
    ensures
        v.step_by(strategy, event, now, backtesting) == v.step(
            event,
            now,
            backtesting,
            answers.0,
            answers.1,
        ),
{
    let v = EngineView { faults: Seq::empty(), ..v };
    match v.phase {
        Phase::Idle => match event {
            Event::Candle(data) => match v.index_of(data.symbol@) {
                Some(i) => {
                    let a = v.absorbed(i, data.candle, now);
                    let close = a.exit_answer(strategy, i);
                    let (after, order) = a.exited(i, now, backtesting, close);
                    let entry = if order is None {
                        after.entry_answer(strategy, i)
                    } else {
                        None
                    };
                    (close, entry)
                },
                None => (false, None),
            },
            _ => (false, None),
        },
        Phase::Closing(i) => (
            false,
            v.confirmed(i as int, event.fill(), now).entry_answer(strategy, i as int),
        ),
        _ => (false, None),
    }
}

/// Whatever the strategy answers, a step keeps the engine well-formed and the
/// registry as it is: the same symbols with the same precisions at the same
/// places. It changes no context but the one that the event is about, and it
/// lets a context absorb a candle only when the engine is idle: while an
/// order is at the venue, no history moves.
pub proof fn lemma_step_keeps_order(
    v: EngineView,
    event: Event,
    now: u64,
    backtesting: bool,
    close: bool,
    entry: Option<OrderView>,
)
    requires
        v.wf(),
    ensures
        ({
            let after = v.step(event, now, backtesting, close, entry).0;
            &&& after.wf()
            &&& after.contexts.len() == v.contexts.len()
            &&& forall|i: int|
                0 <= i < v.contexts.len() ==> (#[trigger] after.contexts[i]).symbol
                    == v.contexts[i].symbol && after.contexts[i].precision
                    == v.contexts[i].precision
            &&& forall|i: int|
                0 <= i < v.contexts.len() && v.subject(event) != Some(i)
                    ==> #[trigger] after.contexts[i] == v.contexts[i]
            &&& v.phase != Phase::Idle ==> forall|i: int|
                0 <= i < v.contexts.len() ==> (#[trigger] after.contexts[i]).candles
                    == v.contexts[i].candles
        }),
{
    let v = EngineView { faults: Seq::empty(), ..v };
    match v.phase {
        Phase::Idle => match event {
            Event::Candle(data) => {
                lemma_find_context(v.contexts, data.symbol@, 0);
                match v.index_of(data.symbol@) {
                    Some(i) => {
                        let a = v.absorbed(i, data.candle, now);
                        lemma_absorbed(v, i, data.candle, now);
                        lemma_managed(a, i, now, backtesting, close, entry);
                    },
                    None => {},
                }
            },
            _ => {},
        },
        Phase::Closing(i) => {
            lemma_traded(v, i as int, event.fill(), now);
            lemma_entered(
                v.confirmed(i as int, event.fill(), now),
                i as int,
                now,
                backtesting,
                entry,
            );
        },
        Phase::Opening(i) => {
            lemma_traded(v, i as int, event.fill(), now);
        },
        Phase::Reconciling => {},
    }
}

/// `after` is `before` but for its capital, its count of events, its phase,
/// and the position of the context at `i`.
spec fn same_but(before: EngineView, after: EngineView, i: int) -> bool {
    &&& after.contexts.len() == before.contexts.len()
    &&& after.holdings == before.holdings
    &&& forall|j: int|
        0 <= j < before.contexts.len() && j != i ==> #[trigger] after.contexts[j]
            == before.contexts[j]
    &&& after.contexts[i].symbol == before.contexts[i].symbol
    &&& after.contexts[i].precision == before.contexts[i].precision
    &&& after.contexts[i].candles == before.contexts[i].candles
    &&& after.contexts[i].last_close == before.contexts[i].last_close
    &&& after.contexts[i].position.wf()
}

/// `v` is well-formed but for its phase, and `i` is the place of a context.
spec fn steady(v: EngineView, i: int) -> bool {
    &&& 0 <= i < v.contexts.len()
    &&& (EngineView { phase: Phase::Idle, ..v }).wf()
}

/// Absorbing a candle changes the context at `i` alone, and neither its
/// symbol nor its precision.
proof fn lemma_absorbed(v: EngineView, i: int, candle: Candle, now: u64)
    requires
        steady(v, i),
    ensures
        steady(v.absorbed(i, candle, now), i),
        v.absorbed(i, candle, now).contexts.len() == v.contexts.len(),
        v.absorbed(i, candle, now).phase == v.phase,
        forall|j: int|
            0 <= j < v.contexts.len() && j != i ==> #[trigger] v.absorbed(
                i,
                candle,
                now,
            ).contexts[j] == v.contexts[j],
        v.absorbed(i, candle, now).contexts[i].symbol == v.contexts[i].symbol,
        v.absorbed(i, candle, now).contexts[i].precision == v.contexts[i].precision,
{
    let p = v.contexts[i].position;
    crate::fourier::lemma_wf_kept(p, 1, 0, 0, now, candle.close as nat);
    let ctx = v.contexts[i].updated(candle);
    lemma_find_holding(v.holdings, ctx.symbol, 0);
    match find_holding(v.holdings, ctx.symbol, 0) {
        Some(h) => {
            lemma_named_once_kept(v.holdings, ctx.symbol, 0, h);
            crate::fourier::lemma_wf_kept(
                ctx.position,
                v.holdings[h].1 as nat,
                ctx.last_close as nat,
                0,
                now,
                0,
            );
        },
        None => {},
    }
}

/// A fill changes the position of the context at `i` and the capital, and
/// nothing else.
proof fn lemma_traded_any(
    v: EngineView,
    i: int,
    fault: Option<FillError>,
    side: OrderSide,
    qty: nat,
    price: nat,
    fee: nat,
    now: u64,
)
    requires
        steady(v, i),
        fault == fill_fault(v.contexts[i].position, v.shared.capital as int, side, qty, price, fee)
            || fault is Some,
    ensures
        steady(v.traded(i, fault, side, qty, price, fee, now), i),
        same_but(v, v.traded(i, fault, side, qty, price, fee, now), i),
        v.traded(i, fault, side, qty, price, fee, now).phase == v.phase,
        v.traded(i, fault, side, qty, price, fee, now).since_sync == v.since_sync,
{
    crate::fourier::lemma_wf_kept(v.contexts[i].position, qty, price, fee, now, 0);
}

/// So does the venue's reply.
proof fn lemma_traded(v: EngineView, i: int, reply: Option<OrderDetail>, now: u64)
    requires
        steady(v, i),
    ensures
        steady(v.confirmed(i, reply, now), i),
        same_but(v, v.confirmed(i, reply, now), i),
        v.confirmed(i, reply, now).phase == v.phase,
        v.confirmed(i, reply, now).since_sync == v.since_sync,
{
    match reply {
        Some(detail) => {
            let fault = confirmed_fault(v.contexts[i].position, v.shared.capital as int, detail);
            match OrderSide::named_by(detail.side@) {
                Some(side) => {
                    lemma_traded_any(
                        v,
                        i,
                        fault,
                        side,
                        detail.filled_quantity as nat,
                        detail.filled_aver_price as nat,
                        detail.commission_charge_value as nat,
                        now,
                    );
                },
                None => {},
            }
        },
        None => {},
    }
}

/// So does a simulated fill.
proof fn lemma_simulated(v: EngineView, i: int, side: OrderSide, qty: nat, now: u64)
    requires
        steady(v, i),
    ensures
        steady(v.simulated(i, side, qty, now), i),
        same_but(v, v.simulated(i, side, qty, now), i),
        v.simulated(i, side, qty, now).phase == v.phase,
        v.simulated(i, side, qty, now).since_sync == v.since_sync,
{
    let ctx = v.contexts[i];
    lemma_traded_any(
        v,
        i,
        simulated_fault(ctx.position, v.shared.capital as int, side, qty, ctx.last_close as nat),
        side,
        qty,
        ctx.last_close as nat,
        simulated_fee(qty, ctx.last_close as nat),
        now,
    );
}

/// The end of an event changes no context and leaves the engine well-formed.
proof fn lemma_finished(v: EngineView, i: int, backtesting: bool)
    requires
        steady(v, i),
    ensures
        v.finished(backtesting).0.wf(),
        v.finished(backtesting).0.contexts == v.contexts,
{
}

/// The entry stage changes at most the position of the context at `i`.
proof fn lemma_entered(v: EngineView, i: int, now: u64, backtesting: bool, entry: Option<OrderView>)
    requires
        steady(v, i),
    ensures
        v.entered(i, now, backtesting, entry).0.wf(),
        same_but(v, v.entered(i, now, backtesting, entry).0, i) || v.entered(
            i,
            now,
            backtesting,
            entry,
        ).0.contexts == v.contexts,
{
    match entry {
        None => {
            lemma_finished(v, i, backtesting);
        },
        Some(order) => {
            if backtesting {
                let s = v.simulated(i, OrderSide::Buy, order.quantity as nat, now);
                lemma_simulated(v, i, OrderSide::Buy, order.quantity as nat, now);
                lemma_finished(s, i, backtesting);
            }
        },
    }
}

/// The exit stage changes at most the position of the context at `i`.
proof fn lemma_managed(
    v: EngineView,
    i: int,
    now: u64,
    backtesting: bool,
    close: bool,
    entry: Option<OrderView>,
)
    requires
        steady(v, i),
    ensures
        v.managed(i, now, backtesting, close, entry).0.wf(),
        same_but(v, v.managed(i, now, backtesting, close, entry).0, i) || v.managed(
            i,
            now,
            backtesting,
            close,
            entry,
        ).0.contexts == v.contexts,
{
    let ctx = v.contexts[i];
    if ctx.position.is_open() && close {
        if backtesting {
            let s = v.simulated(i, OrderSide::Sell, ctx.position.quantity, now);
            lemma_simulated(v, i, OrderSide::Sell, ctx.position.quantity, now);
            lemma_entered(s, i, now, backtesting, entry);
        }
    } else {
        lemma_entered(v, i, now, backtesting, entry);
    }
}

impl EngineView {
    /// The engine after the candles of `feed` were taken one by one,
    /// deciding by `strategy` and simulating every fill, where `times` holds
    /// the clock's reading at each.
    pub open spec fn replayed_by<S: Strategy>(
        self,
        strategy: S,
        feed: Seq<CandleData>,
        times: Seq<u64>,
    ) -> EngineView
        decreases feed.len(),
    {
        if feed.len() == 0 {
            self
        } else {
            self.replayed_by(strategy, feed.drop_last(), times.drop_last()).step_by(
                strategy,
                Event::Candle(feed.last()),
                times.last(),
                true,
            ).0
        }
    }
}

/// What the contexts hold at cost: for each, the cost of its held lots and
/// the fees paid for them, less the PnL that it realized.
pub open spec fn held_at_cost(contexts: Seq<ExecContextView>) -> int
    decreases contexts.len(),
{
    if contexts.len() == 0 {
        0
    } else {
        held_at_cost(contexts.drop_last()) + book_value(contexts.last().position, 0)
    }
}

impl EngineView {
    /// The books of the engine: the capital and what the contexts hold at
    /// cost.
    pub open spec fn books(self) -> int {
        self.shared.capital + held_at_cost(self.contexts)
    }
}

/// Replacing one context changes what is held at cost by the difference
/// between the two.
proof fn lemma_held_update(contexts: Seq<ExecContextView>, i: int, ctx: ExecContextView)
    requires
        0 <= i < contexts.len(),
    ensures
        held_at_cost(contexts.update(i, ctx)) == held_at_cost(contexts) - book_value(
            contexts[i].position,
            0,
        ) + book_value(ctx.position, 0),
    decreases contexts.len(),
{
    if i < contexts.len() - 1 {
        lemma_held_update(contexts.drop_last(), i, ctx);
        assert(contexts.update(i, ctx).drop_last() =~= contexts.drop_last().update(i, ctx));
    } else {
        assert(contexts.update(i, ctx).drop_last() =~= contexts.drop_last());
    }
}

/// A fill that sells no more than is held leaves the books as they are.
proof fn lemma_traded_balances(
    v: EngineView,
    i: int,
    fault: Option<FillError>,
    side: OrderSide,
    qty: nat,
    price: nat,
    fee: nat,
    now: u64,
)
    requires
        steady(v, i),
        fault == fill_fault(v.contexts[i].position, v.shared.capital as int, side, qty, price, fee)
            || fault is Some,
        side == OrderSide::Sell ==> qty <= v.contexts[i].position.quantity,
    ensures
        v.traded(i, fault, side, qty, price, fee, now).books() == v.books(),
{
    if fault is None {
        let p = v.contexts[i].position;
        lemma_fill_conserves(p, v.shared.capital as int, side, qty, price, fee, now);
        lemma_held_update(
            v.contexts,
            i,
            ExecContextView {
                position: position_after(p, side, qty, price, fee, now),
                ..v.contexts[i]
            },
        );
    }
}

/// A simulated fill that sells no more than is held leaves the books as
/// they are.
proof fn lemma_simulated_balances(v: EngineView, i: int, side: OrderSide, qty: nat, now: u64)
    requires
        steady(v, i),
        side == OrderSide::Sell ==> qty <= v.contexts[i].position.quantity,
    ensures
        v.simulated(i, side, qty, now).books() == v.books(),
{
    let ctx = v.contexts[i];
    lemma_traded_balances(
        v,
        i,
        simulated_fault(ctx.position, v.shared.capital as int, side, qty, ctx.last_close as nat),
        side,
        qty,
        ctx.last_close as nat,
        simulated_fee(qty, ctx.last_close as nat),
        now,
    );
}

/// When every fill is simulated and no holding waits to be taken over, a
/// step of an idle engine leaves the books as they are, whatever the
/// strategy answers: what leaves the capital is held at cost, and what comes
/// back is cost released and PnL realized. The engine is idle again
/// afterwards.
pub proof fn lemma_simulated_step_balances(
    v: EngineView,
    event: Event,
    now: u64,
    close: bool,
    entry: Option<OrderView>,
)
    requires
        v.wf(),
        v.phase == Phase::Idle,
        v.holdings.len() == 0,
    ensures
        v.step(event, now, true, close, entry).0.books() == v.books(),
        v.step(event, now, true, close, entry).0.wf(),
        v.step(event, now, true, close, entry).0.phase == Phase::Idle,
        v.step(event, now, true, close, entry).0.holdings.len() == 0,
{
    lemma_step_keeps_order(v, event, now, true, close, entry);
    let v = EngineView { faults: Seq::empty(), ..v };
    match event {
        Event::Candle(data) => {
            lemma_find_context(v.contexts, data.symbol@, 0);
            match v.index_of(data.symbol@) {
                Some(i) => {
                    let a = v.absorbed(i, data.candle, now);
                    lemma_absorbed(v, i, data.candle, now);
                    lemma_held_update(v.contexts, i, v.contexts[i].updated(data.candle));
                    assert(a.books() == v.books());
                    let ctx = a.contexts[i];
                    let b = if ctx.position.is_open() && close {
                        lemma_simulated_balances(a, i, OrderSide::Sell, ctx.position.quantity, now);
                        lemma_simulated(a, i, OrderSide::Sell, ctx.position.quantity, now);
                        a.simulated(i, OrderSide::Sell, ctx.position.quantity, now)
                    } else {
                        a
                    };
                    assert(b.books() == v.books());
                    match entry {
                        Some(order) => {
                            lemma_simulated_balances(
                                b,
                                i,
                                OrderSide::Buy,
                                order.quantity as nat,
                                now,
                            );
                            lemma_simulated(b, i, OrderSide::Buy, order.quantity as nat, now);
                        },
                        None => {},
                    }
                },
                None => {},
            }
        },
        _ => {},
    }
}

/// A replay that starts idle, with no holding waiting, leaves the books as
/// they were, whatever the strategy: the capital at the end, plus what is
/// still held at cost, is the capital at the start plus all PnL that was
/// realized on the way.
pub proof fn lemma_replay_balances<S: Strategy>(
    v: EngineView,
    strategy: S,
    feed: Seq<CandleData>,
    times: Seq<u64>,
)
    requires
        v.wf(),
        v.phase == Phase::Idle,
        v.holdings.len() == 0,
    ensures
        v.replayed_by(strategy, feed, times).books() == v.books(),
        v.replayed_by(strategy, feed, times).wf(),
        v.replayed_by(strategy, feed, times).phase == Phase::Idle,
        v.replayed_by(strategy, feed, times).holdings.len() == 0,
    decreases feed.len(),
{
    if feed.len() > 0 {
        lemma_replay_balances(v, strategy, feed.drop_last(), times.drop_last());
        let before = v.replayed_by(strategy, feed.drop_last(), times.drop_last());
        let answers = lemma_step_by_answers(
            before,
            strategy,
            Event::Candle(feed.last()),
            times.last(),
            true,
        );
        lemma_simulated_step_balances(
            before,
            Event::Candle(feed.last()),
            times.last(),
            answers.0,
            answers.1,
        );
    }
}

/// The execution engine: one context per registered symbol, the shared
/// capital, and the strategy that decides.
pub struct Executioner<T: Strategy> {
    cryptos: Vec<ExecContext>,
    shared_state: SharedState,
    strategy: T,
    bootstrap_positions: Vec<Holding>,
    since_sync: u128,
    phase: Phase,
    faults: Vec<FillError>,
}

impl<T: Strategy> View for Executioner<T> {
    type V = EngineView;

    closed spec fn view(&self) -> EngineView {
        EngineView {
            contexts: self.cryptos@.map_values(|c: ExecContext| c@),
            shared: self.shared_state,
            holdings: holdings_view(self.bootstrap_positions@),
            since_sync: self.since_sync as nat,
            phase: self.phase,
            faults: self.faults@,
        }
    }
}

impl<T: Strategy> Executioner<T> {
    pub open spec fn wf(&self) -> bool {
        self@.wf()
    }

    /// The strategy that the engine decides by: the one it was made with.
    pub closed spec fn strategy(&self) -> T {
        self.strategy
    }

    /// An idle engine with no symbol registered, which decides by the
    /// strategy of `config`. Its holdings are those of `config`, each symbol
    /// once: a later entry for a symbol replaces an earlier one.
    pub fn new(config: TraderConfig<T>) -> (engine: Self)
        ensures
            engine.wf(),
            engine.strategy() == config.strategy,
            engine@ == (EngineView {
                contexts: Seq::empty(),
                shared: SharedState { capital: config.initial_capital, streak: 0 },
                holdings: merged(holdings_view(config.initial_positions@)),
                since_sync: 0,
                phase: Phase::Idle,
                faults: Seq::empty(),
            }),
    {
        let TraderConfig { initial_capital, strategy, initial_positions } = config;
        let mut holdings: Vec<Holding> = Vec::new();
        let mut k: usize = 0;
        assert(holdings_view(holdings@) =~= merged(holdings_view(initial_positions@).take(0)));
        while k < initial_positions.len()
            invariant
                k <= initial_positions.len(),
                holdings_view(holdings@) == merged(
                    holdings_view(initial_positions@).take(k as int),
                ),
            decreases initial_positions.len() - k,
        {
            let symbol: String = initial_positions[k].symbol.clone();
            let quantity: u64 = initial_positions[k].quantity;
            let ghost list = holdings_view(initial_positions@);
            let ghost before = holdings_view(holdings@);
            proof {
                assert(list.take(k + 1).drop_last() =~= list.take(k as int));
                assert(list.take(k + 1).last() == (symbol@, quantity));
            }
            match locate_named(&holdings, &symbol) {
                Some(h) => {
                    holdings[h] = Holding { symbol, quantity };
                    assert(holdings_view(holdings@) =~= before.update(
                        h as int,
                        (symbol@, quantity),
                    ));
                },
                None => {
                    holdings.push(Holding { symbol, quantity });
                    assert(holdings_view(holdings@) =~= before.push((symbol@, quantity)));
                },
            }
            k += 1;
        }
        proof {
            assert(holdings_view(initial_positions@).take(k as int) =~= holdings_view(
                initial_positions@,
            ));
            lemma_merged_once(holdings_view(initial_positions@));
        }
        let engine = Executioner {
            cryptos: Vec::new(),
            shared_state: SharedState { capital: initial_capital, streak: 0 },
            strategy,
            bootstrap_positions: holdings,
            since_sync: 0,
            phase: Phase::Idle,
            faults: Vec::new(),
        };
        assert(engine@.contexts =~= Seq::empty());
        engine
    }

    /// Where the context of `symbol` is, if the symbol is registered.
    fn locate(&self, symbol: &String) -> (found: Option<usize>)
        ensures
            match found {
                Some(i) => self@.index_of(symbol@) == Some(i as int) && i < self.cryptos.len(),
                None => self@.index_of(symbol@) is None,
            },
    {
        let mut i: usize = 0;
        while i < self.cryptos.len()
            invariant
                i <= self.cryptos.len(),
                self@.index_of(symbol@) == find_context(self@.contexts, symbol@, i as int),
            decreases self.cryptos.len() - i,
        {
            if self.cryptos[i].symbol == *symbol {
                return Some(i);
            }
            i += 1;
        }
        None
    }

    /// Registers `symbol` with an empty history and a flat position. A symbol
    /// that is registered already starts over.
    pub fn add_symbol(&mut self, symbol: String, precision: u64)
        requires
            old(self).wf(),
        ensures
            final(self).wf(),
            final(self).strategy() == old(self).strategy(),
            final(self)@ == old(self)@.registered(symbol@, precision),
    {
        let fresh = ExecContext::new(symbol.as_str(), precision);
        proof {
            lemma_find_context(self@.contexts, symbol@, 0);
        }
        match self.locate(&symbol) {
            Some(i) => {
                self.cryptos[i] = fresh;
                assert(self@.contexts =~= old(self)@.contexts.update(
                    i as int,
                    fresh_context(symbol@, precision),
                ));
            },
            None => {
                self.cryptos.push(fresh);
                assert(self@.contexts =~= old(self)@.contexts.push(
                    fresh_context(symbol@, precision),
                ));
            },
        }
    }

    /// Lets the context at `i` absorb `candle` and take over the holding that
    /// waits for its symbol, if one does.
    fn absorb(&mut self, i: usize, candle: Candle, now: u64)
        requires
            old(self).wf(),
            i < old(self).cryptos.len(),
        ensures
            final(self).wf(),
            final(self)@ == old(self)@.absorbed(i as int, candle, now),
            final(self).cryptos.len() == old(self).cryptos.len(),
            final(self).strategy == old(self).strategy,
    {
        match self.cryptos[i].update(candle) {
            Some(e) => {
                self.faults.push(FillError::Position(e));
            },
            None => {},
        }
        assert(self@.contexts =~= old(self)@.contexts.update(
            i as int,
            old(self)@.contexts[i as int].updated(candle),
        ));
        let ghost mid = self@;
        match locate_named(&self.bootstrap_positions, &self.cryptos[i].symbol) {
            Some(h) => {
                proof {
                    lemma_named_once_kept(mid.holdings, mid.contexts[i as int].symbol, 0, h as int);
                }
                let holding = self.bootstrap_positions.remove(h);
                match self.cryptos[i].seed(holding.quantity, now) {
                    Some(e) => {
                        self.faults.push(FillError::Position(e));
                    },
                    None => {},
                }
                assert(self@.holdings =~= mid.holdings.remove(h as int));
                assert(self@.contexts =~= old(self)@.contexts.update(
                    i as int,
                    old(self)@.contexts[i as int].updated(candle).seeded(holding.quantity, now),
                ));
            },
            None => {},
        }
    }

    /// Books a simulated fill on the context at `i`.
    fn trade_simulated(&mut self, i: usize, side: OrderSide, qty: u64, now: u64)
        requires
            old(self).wf(),
            i < old(self).cryptos.len(),
        ensures
            final(self).wf(),
            final(self)@ == old(self)@.simulated(i as int, side, qty as nat, now),
            final(self).cryptos.len() == old(self).cryptos.len(),
            final(self).strategy == old(self).strategy,
    {
        let price: u64 = self.cryptos[i].last_close;
        match simulated_fill(
            &mut self.cryptos[i].position,
            &mut self.shared_state,
            side,
            qty,
            price,
            now,
        ) {
            Ok(()) => {},
            Err(e) => {
                self.faults.push(e);
            },
        }
        assert(self@.contexts =~= old(self)@.simulated(i as int, side, qty as nat, now).contexts);
    }

    /// Books the venue's reply on the context at `i`.
    fn trade_confirmed(&mut self, i: usize, reply: &Option<OrderDetail>, now: u64)
        requires
            old(self).wf(),
            i < old(self).cryptos.len(),
        ensures
            final(self).wf(),
            final(self)@ == old(self)@.confirmed(i as int, *reply, now),
            final(self).cryptos.len() == old(self).cryptos.len(),
            final(self).strategy == old(self).strategy,
    {
        match reply {
            Some(detail) => {
                match confirmed_fill(
                    &mut self.cryptos[i].position,
                    &mut self.shared_state,
                    detail,
                    now,
                ) {
                    Ok(()) => {},
                    Err(e) => {
                        self.faults.push(e);
                    },
                }
                assert(self@.contexts =~= old(self)@.confirmed(i as int, *reply, now).contexts);
            },
            None => {},
        }
    }

    /// Ends the event.
    fn finish(&mut self, backtesting: bool) -> (action: Action)
        requires
            old(self).wf(),
        ensures
            final(self).wf(),
            final(self).strategy == old(self).strategy,
            final(self).cryptos.len() == old(self).cryptos.len(),
            (final(self)@, action@) == old(self)@.finished(backtesting),
    {
        let due_at: u128 = SYNC_EVERY * (self.cryptos.len() as u128);
        let counted: u128 = self.since_sync + 1;
        if counted >= due_at {
            self.since_sync = 0;
            if backtesting {
                self.phase = Phase::Idle;
                Action::Next
            } else {
                self.phase = Phase::Reconciling;
                Action::QueryBalance
            }
        } else {
            self.since_sync = counted;
            self.phase = Phase::Idle;
            Action::Next
        }
    }

    /// The entry stage for a given answer of the strategy: `order` is filled
    /// at once when simulating and sent to the venue otherwise; without one
    /// the event ends. `i` is the place of the context.
    pub fn settle_entry(&mut self, i: usize, now: u64, backtesting: bool, order: Option<Order>) -> (action:
        Action)
        requires
            old(self).wf(),
            i < old(self)@.contexts.len(),
        ensures
            final(self).wf(),
            final(self).strategy() == old(self).strategy(),
            (final(self)@, action@) == old(self)@.entered(
                i as int,
                now,
                backtesting,
                match order {
                    Some(o) => Some(o@),
                    None => None,
                },
            ),
    {
        match order {
            None => self.finish(backtesting),
            Some(order) => {
                if backtesting {
                    self.trade_simulated(i, OrderSide::Buy, order.quantity, now);
                    self.finish(backtesting)
                } else {
                    let precision: u64 = self.cryptos[i].precision;
                    self.phase = Phase::Opening(i);
                    Action::Dispatch(OrderWithResponse { order, precision })
                }
            },
        }
    }

    /// The exit stage for a given answer of the strategy: where the position
    /// at `i` is open and `close` is set, all of it is sold at once when
    /// simulating, and a closing order, which is handed back, goes to the
    /// venue otherwise.
    pub fn settle_exit(&mut self, i: usize, now: u64, backtesting: bool, close: bool) -> (action:
        Option<Action>)
        requires
            old(self).wf(),
            i < old(self)@.contexts.len(),
        ensures
            final(self).wf(),
            final(self).strategy() == old(self).strategy(),
            final(self)@.contexts.len() == old(self)@.contexts.len(),
            final(self)@ == old(self)@.exited(i as int, now, backtesting, close).0,
            match old(self)@.exited(i as int, now, backtesting, close).1 {
                Some(a) => action is Some && action.unwrap()@ == a,
                None => action is None,
            },
    {
        if self.cryptos[i].position.is_open() && close {
            if backtesting {
                let held: u64 = self.cryptos[i].position.quantity;
                self.trade_simulated(i, OrderSide::Sell, held, now);
                None
            } else {
                let mut pair: String = self.cryptos[i].symbol.clone();
                pair.append("/USD");
                let order = Order {
                    pair,
                    side: OrderSide::Sell,
                    order_type: OrderType::Market,
                    quantity: self.cryptos[i].position.quantity,
                    price: None,
                };
                let precision: u64 = self.cryptos[i].precision;
                self.phase = Phase::Closing(i);
                Some(Action::Dispatch(OrderWithResponse { order, precision }))
            }
        } else {
            None
        }
    }

    /// The entry stage: asks the strategy, on the context and the capital as
    /// they stand, whether and with what to enter.
    fn enter(&mut self, i: usize, now: u64, backtesting: bool) -> (action: Action)
        requires
            old(self).wf(),
            i < old(self).cryptos.len(),
        ensures
            final(self).wf(),
            final(self).strategy == old(self).strategy,
            (final(self)@, action@) == old(self)@.entered_by(
                old(self).strategy,
                i as int,
                now,
                backtesting,
            ),
    {
        let order: Option<Order> = if self.strategy.should_long(
            &self.cryptos[i],
            &self.shared_state,
        ) {
            self.strategy.go_long(&self.cryptos[i], &self.shared_state)
        } else {
            None
        };
        self.settle_entry(i, now, backtesting, order)
    }

    /// The exit stage: asks the strategy, if the position is open, on the
    /// context and the capital as they stand, whether to close it; the entry
    /// stage follows unless an order goes out.
    fn manage(&mut self, i: usize, now: u64, backtesting: bool) -> (action: Action)
        requires
            old(self).wf(),
            i < old(self).cryptos.len(),
        ensures
            final(self).wf(),
            final(self).strategy == old(self).strategy,
            (final(self)@, action@) == old(self)@.managed_by(
                old(self).strategy,
                i as int,
                now,
                backtesting,
            ),
    {
        let close: bool = self.cryptos[i].position.is_open() && self.strategy.update_position(
            &self.cryptos[i],
            &self.shared_state,
        );
        match self.settle_exit(i, now, backtesting, close) {
            Some(action) => action,
            None => self.enter(i, now, backtesting),
        }
    }

    /// Brings the capital in line with the venue. Given a confirmation, books
    /// its fill on the capital, not on any position, and hands back the
    /// fill's quantity, price and fee. Given none, takes the free `USD` balance
    /// of `wallet`, if there is one, as the capital.
    pub fn sync(&mut self, details: Option<&OrderDetail>, wallet: Option<&BalanceResponse>) -> (fill:
        Option<(u64, u64, u64)>)
        requires
            old(self).wf(),
        ensures
            final(self).wf(),
            final(self).strategy() == old(self).strategy(),
            (final(self)@, fill) == old(self)@.synced(
                match details {
                    Some(d) => Some(*d),
                    None => None,
                },
                match wallet {
                    Some(w) => Some(*w),
                    None => None,
                },
            ),
    {
        match details {
            Some(d) => match OrderSide::from_wire(d.side.as_str()) {
                Some(side) => {
                    if self.shared_state.settle(
                        side,
                        d.filled_quantity,
                        d.filled_aver_price,
                        d.commission_charge_value,
                    ) {
                        Some((d.filled_quantity, d.filled_aver_price, d.commission_charge_value))
                    } else {
                        None
                    }
                },
                None => None,
            },
            None => {
                match wallet {
                    Some(w) => match w.spot_free("USD") {
                        Some(free) => {
                            self.shared_state.capital = free;
                        },
                        None => {},
                    },
                    None => {},
                }
                None
            },
        }
    }

    /// Replays `feed` candle by candle, deciding by the engine's strategy and
    /// simulating every fill. Each candle's step gets the system clock's
    /// reading as its time.
    pub fn run(&mut self, feed: &Vec<CandleData>)
        requires
            old(self).wf(),
        ensures
            final(self).wf(),
            final(self).strategy() == old(self).strategy(),
            exists|times: Seq<u64>|
                times.len() == feed.len() && final(self)@ == #[trigger] old(self)@.replayed_by(
                    old(self).strategy(),
                    feed@,
                    times,
                ),
    {
        let ghost mut times: Seq<u64> = Seq::empty();
        let mut k: usize = 0;
        while k < feed.len()
            invariant
                k <= feed.len(),
                self.wf(),
                self.strategy() == old(self).strategy(),
                times.len() == k,
                self@ == old(self)@.replayed_by(old(self).strategy(), feed@.take(k as int), times),
            decreases feed.len() - k,
        {
            let data = CandleData { symbol: feed[k].symbol.clone(), candle: feed[k].candle };
            let now: u64 = now_unix_secs();
            let _ = self.step(Event::Candle(data), now, true);
            proof {
                let longer = times.push(now);
                assert(feed@.take(k + 1).drop_last() =~= feed@.take(k as int));
                assert(feed@.take(k + 1).last() == feed@[k as int]);
                assert(longer.drop_last() =~= times);
                assert(data == feed@[k as int]);
                times = longer;
            }
            k += 1;
        }
        assert(feed@.take(k as int) =~= feed@);
    }

    /// Takes one event and says what the driver has to do next. `now` is the
    /// time, in seconds since the epoch, that a position opened by this step
    /// gets as its entry time. The strategy is asked as the event requires,
    /// and the step is the one that `EngineView::step_by` describes for the
    /// engine's strategy.
    pub fn step(&mut self, event: Event, now: u64, backtesting: bool) -> (action: Action)
        requires
            old(self).wf(),
        ensures
            final(self).wf(),
            final(self).strategy() == old(self).strategy(),
            (final(self)@, action@) == old(self)@.step_by(
                old(self).strategy(),
                event,
                now,
                backtesting,
            ),
    {
        self.faults.clear();
        match self.phase {
            Phase::Idle => match &event {
                Event::Candle(data) => match self.locate(&data.symbol) {
                    Some(i) => {
                        self.absorb(i, data.candle, now);
                        self.manage(i, now, backtesting)
                    },
                    None => Action::Next,
                },
                _ => Action::Next,
            },
            Phase::Closing(i) => {
                let reply: Option<OrderDetail> = match event {
                    Event::Fill(detail) => detail,
                    _ => None,
                };
                self.trade_confirmed(i, &reply, now);
                self.enter(i, now, backtesting)
            },
            Phase::Opening(i) => {
                let reply: Option<OrderDetail> = match event {
                    Event::Fill(detail) => detail,
                    _ => None,
                };
                self.trade_confirmed(i, &reply, now);
                self.finish(backtesting)
            },
            Phase::Reconciling => {
                let wallet: Option<BalanceResponse> = match event {
                    Event::Balance(wallet) => wallet,
                    _ => None,
                };
                let _ = self.sync(
                    None,
                    match &wallet {
                        Some(w) => Some(w),
                        None => None,
                    },
                );
                self.phase = Phase::Idle;
                Action::Next
            },
        }
    }

    /// The fills that the last step could not book, in their order.
    pub fn faults(&self) -> (faults: &Vec<FillError>)
        ensures
            faults@ == self@.faults,
    {
        &self.faults
    }

    /// The shared capital.
    pub fn capital(&self) -> (capital: i64)
        ensures
            capital == self@.shared.capital,
    {
        self.shared_state.capital
    }

    /// Where the engine stands.
    pub fn phase(&self) -> (phase: Phase)
        ensures
            phase == self@.phase,
    {
        self.phase
    }

    /// How many symbols are registered.
    pub fn symbol_count(&self) -> (count: usize)
        ensures
            count == self@.contexts.len(),
    {
        self.cryptos.len()
    }

    /// The context of `symbol`, if the symbol is registered.
    pub fn context(&self, symbol: &str) -> (ctx: Option<&ExecContext>)
        ensures
            match self@.index_of(symbol@) {
                Some(i) => ctx is Some && ctx.unwrap()@ == self@.contexts[i],
                None => ctx is None,
            },
    {
        let name = symbol.to_owned();
        match self.locate(&name) {
            Some(i) => Some(&self.cryptos[i]),
            None => None,
        }
    }
}

} // verus!
