//! Indicators over the newest candles of a history, in whole ticks.
use vstd::prelude::*;
use crate::arith::lemma_mul_le;
use crate::fourier::Candle;

verus! {

/// The newest `n` items of `s`.
pub open spec fn tail<T>(s: Seq<T>, n: nat) -> Seq<T> {
    s.subrange(s.len() - n, s.len() as int)
}

/// The closing prices of `candles`.
pub open spec fn closes_of(candles: Seq<Candle>) -> Seq<u64> {
    candles.map_values(|c: Candle| c.close)
}

/// Exponential moving average of `values` with smoothing `2 / (period + 1)`:
/// the first value, then for each further value `v` the old average `e`
/// becomes `(2 * v + (period - 1) * e) / (period + 1)`, rounded down.
pub open spec fn ema_of(values: Seq<u64>, period: nat) -> nat
    decreases values.len(),
{
    if values.len() == 0 {
        0
    } else if values.len() == 1 {
        values[0] as nat
    } else {
        ((2 * values.last() + (period - 1) * ema_of(values.drop_last(), period)) / (period
            + 1) as int) as nat
    }
}

/// The average over the newest `period` values, where there are that many.
pub open spec fn ema_series_of(values: Seq<u64>, period: nat) -> Option<nat> {
    if period == 0 || values.len() < period {
        None
    } else {
        Some(ema_of(tail(values, period), period))
    }
}

/// The sum of `values`.
pub open spec fn sum_of(values: Seq<u64>) -> nat
    decreases values.len(),
{
    if values.len() == 0 {
        0
    } else {
        sum_of(values.drop_last()) + values.last() as nat
    }
}

/// Simple moving average over the newest `period` values, rounded down.
pub open spec fn sma_of(values: Seq<u64>, period: nat) -> Option<nat> {
    if period == 0 || values.len() < period {
        None
    } else {
        Some(sum_of(tail(values, period)) / period)
    }
}

/// The sum of the rises from one value to the next.
pub open spec fn gains_of(values: Seq<u64>) -> nat
    decreases values.len(),
{
    if values.len() <= 1 {
        0
    } else {
        let prev = values[values.len() - 2];
        let last = values.last();
        gains_of(values.drop_last()) + if last > prev {
            (last - prev) as nat
        } else {
            0nat
        }
    }
}

/// The sum of the falls from one value to the next.
pub open spec fn losses_of(values: Seq<u64>) -> nat
    decreases values.len(),
{
    if values.len() <= 1 {
        0
    } else {
        let prev = values[values.len() - 2];
        let last = values.last();
        losses_of(values.drop_last()) + if last < prev {
            (prev - last) as nat
        } else {
            0nat
        }
    }
}

/// Relative strength index of given gains and losses, between 0 and 100 and
/// rounded down: the gains' part of all movement, and 100 where nothing fell.
pub open spec fn rsi_from(gains: nat, losses: nat) -> nat {
    if losses == 0 {
        100
    } else {
        (100 * gains) / (gains + losses)
    }
}

/// Relative strength index over the newest `period` changes of `values`. It
/// is defined where there are that many changes and a hundred times the
/// gains is a 128-bit number.
pub open spec fn rsi_of(values: Seq<u64>, period: nat) -> Option<nat> {
    if period == 0 || values.len() <= period {
        None
    } else {
        let window = tail(values, period + 1);
        if losses_of(window) != 0 && 100 * gains_of(window) > u128::MAX {
            None
        } else {
            Some(rsi_from(gains_of(window), losses_of(window)))
        }
    }
}

/// The largest of a candle's range and its distances from the close before.
pub open spec fn true_range(prev: Candle, cur: Candle) -> nat {
    let spread: int = if cur.high >= cur.low {
        cur.high - cur.low
    } else {
        0
    };
    let up: int = if cur.high >= prev.close {
        cur.high - prev.close
    } else {
        prev.close - cur.high
    };
    let down: int = if cur.low >= prev.close {
        cur.low - prev.close
    } else {
        prev.close - cur.low
    };
    let wider: int = if spread >= up {
        spread
    } else {
        up
    };
    (if wider >= down {
        wider
    } else {
        down
    }) as nat
}

/// The sum of the true ranges of all candles but the first.
pub open spec fn range_sum(candles: Seq<Candle>) -> nat
    decreases candles.len(),
{
    if candles.len() <= 1 {
        0
    } else {
        range_sum(candles.drop_last()) + true_range(
            candles[candles.len() - 2],
            candles.last(),
        )
    }
}

/// Average true range over the newest `period` candles, rounded down.
pub open spec fn atr_of(candles: Seq<Candle>, period: nat) -> Option<nat> {
    if period == 0 || candles.len() < period + 1 {
        None
    } else {
        Some(range_sum(tail(candles, period + 1)) / period)
    }
}

/// The sum of the squared distances of `values` from `mean`.
pub open spec fn squares_of(values: Seq<u64>, mean: nat) -> nat
    decreases values.len(),
{
    if values.len() == 0 {
        0
    } else {
        squares_of(values.drop_last(), mean) + ((values.last() - mean) * (values.last()
            - mean)) as nat
    }
}

/// `root` is the square root of `n`, rounded down.
pub open spec fn is_root(n: nat, root: nat) -> bool {
    root * root <= n < (root + 1) * (root + 1)
}

/// The variance of `values` about their mean, both rounded down.
pub open spec fn variance_of(values: Seq<u64>) -> nat {
    squares_of(values, sum_of(values) / values.len()) / values.len()
}

/// Squared distances only add up.
pub proof fn lemma_squares_grow(values: Seq<u64>, mean: nat, k: int)
    requires
        0 <= k <= values.len(),
    ensures
        squares_of(values.take(k), mean) <= squares_of(values, mean),
    decreases values.len(),
{
    if k < values.len() {
        lemma_squares_grow(values.drop_last(), mean, k);
        assert(values.drop_last().take(k) =~= values.take(k));
        let d = values.last() - mean;
        assert(d * d >= 0) by (nonlinear_arith);
    } else {
        assert(values.take(k) =~= values);
    }
}

/// An average never leaves the range of 64-bit values.
pub proof fn lemma_ema_bound(values: Seq<u64>, period: nat)
    requires
        period >= 1,
    ensures
        ema_of(values, period) <= u64::MAX,
    decreases values.len(),
{
    if values.len() > 1 {
        lemma_ema_bound(values.drop_last(), period);
        let v = values.last() as int;
        let e = ema_of(values.drop_last(), period) as int;
        let p = period as int;
        let m = u64::MAX as int;
        assert((2 * v + (p - 1) * e) / (p + 1) <= m) by (nonlinear_arith)
            requires
                0 <= v <= m,
                0 <= e <= m,
                p >= 1,
        ;
    }
}

/// Sums grow by at most the largest value per item.
pub proof fn lemma_sum_bound(values: Seq<u64>)
    ensures
        sum_of(values) <= values.len() * u64::MAX,
    decreases values.len(),
{
    if values.len() > 0 {
        lemma_sum_bound(values.drop_last());
        assert((values.len() - 1) * u64::MAX + u64::MAX == values.len() * u64::MAX)
            by (nonlinear_arith);
    }
}

/// Gains and losses together grow by at most the largest value per change.
pub proof fn lemma_moves_bound(values: Seq<u64>)
    ensures
        gains_of(values) + losses_of(values) <= values.len() * u64::MAX,
    decreases values.len(),
{
    if values.len() > 1 {
        lemma_moves_bound(values.drop_last());
        assert((values.len() - 1) * u64::MAX + u64::MAX == values.len() * u64::MAX)
            by (nonlinear_arith);
    }
}

/// True ranges grow their sum by at most the largest value per candle after
/// the first.
pub proof fn lemma_range_bound(candles: Seq<Candle>)
    requires
        candles.len() >= 1,
    ensures
        range_sum(candles) <= (candles.len() - 1) * u64::MAX,
    decreases candles.len(),
{
    if candles.len() > 1 {
        lemma_range_bound(candles.drop_last());
        assert((candles.len() - 2) * u64::MAX + u64::MAX == (candles.len() - 1) * u64::MAX)
            by (nonlinear_arith);
    } else {
        assert(0 * u64::MAX == 0) by (nonlinear_arith);
    }
}

/// The square root of `n`, rounded down.
pub fn integer_root(n: u128) -> (root: u64)
    ensures
        is_root(n as nat, root as nat),
{
    let mut low: u128 = 0;
    let mut high: u128 = 0x1_0000_0000_0000_0000;
    assert(0x1_0000_0000_0000_0000int * 0x1_0000_0000_0000_0000int > u128::MAX)
        by (nonlinear_arith);
    while high - low > 1
        invariant
            low < high <= 0x1_0000_0000_0000_0000,
            low * low <= n,
            n < high * high,
        decreases high - low,
    {
        let middle: u128 = low + (high - low) / 2;
        assert(middle * middle <= u64::MAX * u64::MAX) by (nonlinear_arith)
            requires
                0 <= middle <= u64::MAX,
        ;
        assert(u64::MAX * u64::MAX <= u128::MAX) by (nonlinear_arith);
        if middle * middle <= n {
            low = middle;
        } else {
            high = middle;
        }
    }
    low as u64
}

/// Indicators over a history of candles, oldest first.
pub struct Indicators<'a> {
    candles: &'a [Candle],
}

/// The distance between `a` and `b`.
fn distance(a: u64, b: u64) -> (d: u64)
    ensures
        d == if a >= b {
            a - b
        } else {
            b - a
        },
{
    if a >= b {
        a - b
    } else {
        b - a
    }
}

impl<'a> Indicators<'a> {
    /// The candles that the indicators are taken over.
    pub closed spec fn series(&self) -> Seq<Candle> {
        self.candles@
    }

    pub fn new(candles: &'a [Candle]) -> (indicators: Self)
        ensures
            indicators.series() == candles@,
    {
        Self { candles }
    }

    /// The closing prices of the newest `count` candles.
    fn closes(&self, count: usize) -> (closes: Vec<u64>)
        requires
            count <= self.series().len(),
        ensures
            closes@ == tail(closes_of(self.series()), count as nat),
    {
        let len: usize = self.candles.len();
        let start: usize = len - count;
        let mut closes: Vec<u64> = Vec::new();
        let mut k: usize = 0;
        while k < count
            invariant
                k <= count,
                len == self.candles.len(),
                start == len - count,
                closes@ == closes_of(self.series()).subrange(start as int, start + k),
            decreases count - k,
        {
            closes.push(self.candles[start + k].close);
            assert(closes@ =~= closes_of(self.series()).subrange(start as int, start + k + 1));
            k += 1;
        }
        closes
    }

    /// Exponential moving average of the closing prices over the newest
    /// `period` candles.
    pub fn ema(&self, period: usize) -> (ema: Option<u64>)
        ensures
            match ema_series_of(closes_of(self.series()), period as nat) {
                Some(e) => ema is Some && ema.unwrap() == e,
                None => ema is None,
            },
    {
        if period == 0 || self.candles.len() < period {
            return None;
        }
        let closes = self.closes(period);
        proof {
            assert(tail(closes@, period as nat) =~= closes@);
            assert(closes@ =~= tail(closes_of(self.series()), period as nat));
        }
        self.ema_series(&closes, period)
    }

    /// Exponential moving average over the newest `period` items of `data`.
    pub fn ema_series(&self, data: &Vec<u64>, period: usize) -> (ema: Option<u64>)
        ensures
            match ema_series_of(data@, period as nat) {
                Some(e) => ema is Some && ema.unwrap() == e,
                None => ema is None,
            },
    {
        if period == 0 || data.len() < period {
            return None;
        }
        let start: usize = data.len() - period;
        let ghost window = tail(data@, period as nat);
        let mut ema: u64 = data[start];
        let mut k: usize = 1;
        assert(window.take(1).len() == 1);
        while k < period
            invariant
                1 <= k <= period,
                period <= data.len(),
                start == data.len() - period,
                window == tail(data@, period as nat),
                ema == ema_of(window.take(k as int), period as nat),
            decreases period - k,
        {
            let value: u64 = data[start + k];
            proof {
                let longer = window.take(k + 1);
                assert(longer.drop_last() =~= window.take(k as int));
                assert(longer.last() == value);
                lemma_ema_bound(longer, period as nat);
                lemma_mul_le((period - 1) as nat, ema as nat, u64::MAX as nat, u64::MAX as nat);
                assert(u64::MAX * u64::MAX + 2 * u64::MAX <= u128::MAX) by (nonlinear_arith);
            }
            let weighted: u128 = 2 * (value as u128) + ((period - 1) as u128) * (ema as u128);
            ema = (weighted / (period as u128 + 1)) as u64;
            k += 1;
        }
        assert(window.take(period as int) =~= window);
        Some(ema)
    }

    /// Standard deviation over the newest `period` items of `data`: the
    /// square root of their variance about their mean, each rounded down.
    /// None without that many items, or where the squared distances from the
    /// mean add up beyond 128 bits.
    pub fn stddev_series(&self, data: &Vec<u64>, period: usize) -> (deviation: Option<u64>)
        ensures
            period == 0 || data.len() < period ==> deviation is None,
            period > 0 && data.len() >= period ==> match deviation {
                Some(root) => is_root(variance_of(tail(data@, period as nat)), root as nat),
                None => squares_of(
                    tail(data@, period as nat),
                    sum_of(tail(data@, period as nat)) / period as nat,
                ) > u128::MAX,
            },
    {
        if period == 0 || data.len() < period {
            return None;
        }
        let start: usize = data.len() - period;
        let ghost window = tail(data@, period as nat);
        let mut sum: u128 = 0;
        let mut k: usize = 0;
        while k < period
            invariant
                k <= period,
                period <= data.len(),
                start == data.len() - period,
                window == tail(data@, period as nat),
                sum == sum_of(window.take(k as int)),
            decreases period - k,
        {
            proof {
                let longer = window.take(k + 1);
                assert(longer.drop_last() =~= window.take(k as int));
                lemma_sum_bound(longer);
                lemma_mul_le(longer.len(), u64::MAX as nat, u64::MAX as nat, u64::MAX as nat);
                assert(u64::MAX * u64::MAX <= u128::MAX) by (nonlinear_arith);
            }
            sum = sum + data[start + k] as u128;
            k += 1;
        }
        proof {
            assert(window.take(period as int) =~= window);
            lemma_sum_bound(window);
            let s = sum as int;
            let p = period as int;
            assert(s / p <= u64::MAX) by (nonlinear_arith)
                requires
                    0 <= s <= p * u64::MAX,
                    p > 0,
            ;
        }
        let mean: u64 = (sum / (period as u128)) as u64;
        let mut squares: u128 = 0;
        let mut j: usize = 0;
        while j < period
            invariant
                j <= period,
                period <= data.len(),
                start == data.len() - period,
                window == tail(data@, period as nat),
                mean == sum_of(window) / period as nat,
                squares == squares_of(window.take(j as int), mean as nat),
            decreases period - j,
        {
            let off: u64 = distance(data[start + j], mean);
            proof {
                let longer = window.take(j + 1);
                assert(longer.drop_last() =~= window.take(j as int));
                assert(longer.last() == data[start + j]);
                let d = data[start + j] - mean;
                assert(off * off == d * d) by (nonlinear_arith)
                    requires
                        off == d || off == -d,
                ;
                lemma_mul_le(off as nat, off as nat, u64::MAX as nat, u64::MAX as nat);
                assert(u64::MAX * u64::MAX <= u128::MAX) by (nonlinear_arith);
            }
            let square: u128 = (off as u128) * (off as u128);
            squares = match squares.checked_add(square) {
                Some(total) => total,
                None => {
                    proof {
                        lemma_squares_grow(window, mean as nat, j + 1);
                    }
                    return None;
                },
            };
            j += 1;
        }
        assert(window.take(period as int) =~= window);
        Some(integer_root(squares / (period as u128)))
    }

    /// Simple moving average of the closing prices over the newest `period`
    /// candles.
    pub fn sma(&self, period: usize) -> (sma: Option<u64>)
        ensures
            match sma_of(closes_of(self.series()), period as nat) {
                Some(a) => sma is Some && sma.unwrap() == a,
                None => sma is None,
            },
    {
        if period == 0 || self.candles.len() < period {
            return None;
        }
        let start: usize = self.candles.len() - period;
        let ghost window = tail(closes_of(self.series()), period as nat);
        let mut sum: u128 = 0;
        let mut k: usize = 0;
        while k < period
            invariant
                k <= period,
                period <= self.candles.len(),
                start == self.candles.len() - period,
                window == tail(closes_of(self.series()), period as nat),
                sum == sum_of(window.take(k as int)),
            decreases period - k,
        {
            proof {
                let longer = window.take(k + 1);
                assert(longer.drop_last() =~= window.take(k as int));
                lemma_sum_bound(longer);
                lemma_mul_le(longer.len(), u64::MAX as nat, u64::MAX as nat, u64::MAX as nat);
                assert(u64::MAX * u64::MAX <= u128::MAX) by (nonlinear_arith);
            }
            sum = sum + self.candles[start + k].close as u128;
            k += 1;
        }
        proof {
            assert(window.take(period as int) =~= window);
            lemma_sum_bound(window);
            let s = sum as int;
            let p = period as int;
            assert(s / p <= u64::MAX) by (nonlinear_arith)
                requires
                    0 <= s <= p * u64::MAX,
                    p > 0,
            ;
        }
        Some((sum / (period as u128)) as u64)
    }

    /// Relative strength index of the closing prices over the newest `period`
    /// changes.
    pub fn rsi(&self, period: usize) -> (rsi: Option<u64>)
        ensures
            match rsi_of(closes_of(self.series()), period as nat) {
                Some(r) => rsi is Some && rsi.unwrap() == r,
                None => rsi is None,
            },
            rsi is Some ==> rsi.unwrap() <= 100,
    {
        if period == 0 || self.candles.len() <= period {
            return None;
        }
        let start: usize = self.candles.len() - (period + 1);
        let ghost window = tail(closes_of(self.series()), (period + 1) as nat);
        let mut gains: u128 = 0;
        let mut losses: u128 = 0;
        let mut k: usize = 1;
        while k <= period
            invariant
                1 <= k <= period + 1,
                period < self.candles.len(),
                start == self.candles.len() - (period + 1),
                window == tail(closes_of(self.series()), (period + 1) as nat),
                gains == gains_of(window.take(k as int)),
                losses == losses_of(window.take(k as int)),
            decreases period + 1 - k,
        {
            proof {
                let longer = window.take(k + 1);
                assert(longer.drop_last() =~= window.take(k as int));
                lemma_moves_bound(longer);
                lemma_mul_le(longer.len(), u64::MAX as nat, u64::MAX as nat, u64::MAX as nat);
                assert(u64::MAX * u64::MAX <= u128::MAX) by (nonlinear_arith);
            }
            let prev: u64 = self.candles[start + k - 1].close;
            let last: u64 = self.candles[start + k].close;
            if last > prev {
                gains = gains + (last - prev) as u128;
            } else {
                losses = losses + (prev - last) as u128;
            }
            k += 1;
        }
        proof {
            assert(window.take(period + 1) =~= window);
            lemma_moves_bound(window);
            lemma_mul_le(window.len(), u64::MAX as nat, u64::MAX as nat, u64::MAX as nat);
            assert(u64::MAX * u64::MAX <= u128::MAX) by (nonlinear_arith);
        }
        if losses == 0 {
            return Some(100);
        }
        match gains.checked_mul(100) {
            None => None,
            Some(scaled) => {
                proof {
                    let g = gains as int;
                    let l = losses as int;
                    assert((100 * g) / (g + l) <= 100) by (nonlinear_arith)
                        requires
                            0 <= g,
                            0 < l,
                    ;
                }
                Some((scaled / (gains + losses)) as u64)
            },
        }
    }

    /// Average true range over the newest `period` candles.
    pub fn atr(&self, period: usize) -> (atr: Option<u64>)
        ensures
            match atr_of(self.series(), period as nat) {
                Some(a) => atr is Some && atr.unwrap() == a,
                None => atr is None,
            },
    {
        if period == 0 || self.candles.len() <= period {
            return None;
        }
        let start: usize = self.candles.len() - (period + 1);
        let ghost window = tail(self.series(), (period + 1) as nat);
        let mut sum: u128 = 0;
        let mut k: usize = 1;
        while k <= period
            invariant
                1 <= k <= period + 1,
                period < self.candles.len(),
                start == self.candles.len() - (period + 1),
                window == tail(self.series(), (period + 1) as nat),
                sum == range_sum(window.take(k as int)),
            decreases period + 1 - k,
        {
            proof {
                let longer = window.take(k + 1);
                assert(longer.drop_last() =~= window.take(k as int));
                lemma_range_bound(longer);
                lemma_mul_le(
                    (longer.len() - 1) as nat,
                    u64::MAX as nat,
                    u64::MAX as nat,
                    u64::MAX as nat,
                );
                assert(u64::MAX * u64::MAX <= u128::MAX) by (nonlinear_arith);
            }
            let prev: Candle = self.candles[start + k - 1];
            let cur: Candle = self.candles[start + k];
            let spread: u64 = if cur.high >= cur.low {
                cur.high - cur.low
            } else {
                0
            };
            let up: u64 = distance(cur.high, prev.close);
            let down: u64 = distance(cur.low, prev.close);
            let wider: u64 = if spread >= up {
                spread
            } else {
                up
            };
            let range: u64 = if wider >= down {
                wider
            } else {
                down
            };
            sum = sum + range as u128;
            k += 1;
        }
        proof {
            assert(window.take(period + 1) =~= window);
            lemma_range_bound(window);
            let s = sum as int;
            let p = period as int;
            assert(s / p <= u64::MAX) by (nonlinear_arith)
                requires
                    0 <= s <= p * u64::MAX,
                    p > 0,
            ;
        }
        Some((sum / (period as u128)) as u64)
    }
}

} // verus!
