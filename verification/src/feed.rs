//! The candle feed: what it knows of the traded symbols, and how it reads
//! the market's price bars.
use vstd::prelude::*;
use vstd::string::StrSliceExecFns;
use crate::arith::{lemma_pow10, pow10, times_pow10};
use crate::fourier::{Candle, QUOTE_DIGITS};
use crate::roostoo::same_text;
use crate::strategy::CandleData;

verus! {

/// The decimal digits of one lot of `symbol`: those of the symbols that the
/// venue lists, and two for any other.
pub open spec fn precision_of(symbol: Seq<char>) -> u64 {
    if symbol == "BTC"@ {
        5
    } else if symbol == "ETH"@ {
        4
    } else if symbol == "SOL"@ || symbol == "BNB"@ || symbol == "AAVE"@ {
        3
    } else if symbol == "DOGE"@ || symbol == "XLM"@ || symbol == "BONK"@ {
        0
    } else if symbol == "XRP"@ || symbol == "SUI"@ || symbol == "TRX"@ {
        1
    } else {
        2
    }
}

/// The decimal digits of one lot of `symbol`.
pub fn default_precision(symbol: &str) -> (precision: u64)
    ensures
        precision == precision_of(symbol@),
{
    if same_text(symbol, "BTC") {
        5
    } else if same_text(symbol, "ETH") {
        4
    } else if same_text(symbol, "SOL") || same_text(symbol, "BNB") || same_text(symbol, "AAVE") {
        3
    } else if same_text(symbol, "DOGE") || same_text(symbol, "XLM") || same_text(symbol, "BONK") {
        0
    } else if same_text(symbol, "XRP") || same_text(symbol, "SUI") || same_text(symbol, "TRX") {
        1
    } else {
        2
    }
}

/// The value of a decimal digit.
pub open spec fn digit_of(c: char) -> Option<u8> {
    match c {
        '0' => Some(0),
        '1' => Some(1),
        '2' => Some(2),
        '3' => Some(3),
        '4' => Some(4),
        '5' => Some(5),
        '6' => Some(6),
        '7' => Some(7),
        '8' => Some(8),
        '9' => Some(9),
        _ => None,
    }
}

/// The value of a decimal digit.
fn read_digit(c: char) -> (d: Option<u8>)
    ensures
        d == digit_of(c),
        d is Some ==> d.unwrap() < 10,
{
    match c {
        '0' => Some(0),
        '1' => Some(1),
        '2' => Some(2),
        '3' => Some(3),
        '4' => Some(4),
        '5' => Some(5),
        '6' => Some(6),
        '7' => Some(7),
        '8' => Some(8),
        '9' => Some(9),
        _ => None,
    }
}

/// Whether `text` holds decimal digits only.
pub open spec fn all_digits(text: Seq<char>) -> bool {
    forall|i: int| 0 <= i < text.len() ==> digit_of(#[trigger] text[i]) is Some
}

/// The number that the digits of `text` write; what is no digit counts as
/// zero.
pub open spec fn number_of(text: Seq<char>) -> nat
    decreases text.len(),
{
    if text.len() == 0 {
        0
    } else {
        number_of(text.drop_last()) * 10 + match digit_of(text.last()) {
            Some(d) => d as nat,
            None => 0,
        }
    }
}

/// Where the first point of `text` stands at or after `from`; the length of
/// `text` if there is none.
pub open spec fn first_dot(text: Seq<char>, from: int) -> int
    decreases text.len() - from,
{
    if from < 0 || from >= text.len() {
        text.len() as int
    } else if text[from] == '.' {
        from
    } else {
        first_dot(text, from + 1)
    }
}

/// The digits after the point as a number of `digits` digits: more digits
/// are cut off, missing ones are zeros.
pub open spec fn fraction_of(frac: Seq<char>, digits: nat) -> nat {
    if frac.len() >= digits {
        number_of(frac.take(digits as int))
    } else {
        number_of(frac) * pow10((digits - frac.len()) as nat)
    }
}

/// What stands before the first point of `text`.
pub open spec fn whole_part(text: Seq<char>) -> Seq<char> {
    text.subrange(0, first_dot(text, 0))
}

/// What stands after the first point of `text`.
pub open spec fn fraction_part(text: Seq<char>) -> Seq<char> {
    if first_dot(text, 0) < text.len() {
        text.subrange(first_dot(text, 0) + 1, text.len() as int)
    } else {
        Seq::empty()
    }
}

/// The number that `text` writes, in units of `10^-digits` and rounded down.
/// A number is written as digits, with at most one point among them and at
/// least one digit.
pub open spec fn fixed_of(text: Seq<char>, digits: nat) -> Option<nat> {
    let whole = whole_part(text);
    let frac = fraction_part(text);
    if whole.len() + frac.len() == 0 || !all_digits(whole) || !all_digits(frac) {
        None
    } else {
        Some(number_of(whole) * pow10(digits) + fraction_of(frac, digits))
    }
}

/// The number that `text` writes in units of `10^-digits`, where it writes
/// one and that is a 64-bit number.
pub open spec fn fixed_u64(text: Seq<char>, digits: nat) -> Option<u64> {
    match fixed_of(text, digits) {
        Some(n) => if n <= u64::MAX {
            Some(n as u64)
        } else {
            None
        },
        None => None,
    }
}

/// A number is at least the number that any of its leading digits write.
pub proof fn lemma_number_grows(text: Seq<char>, k: int)
    requires
        0 <= k <= text.len(),
    ensures
        number_of(text.take(k)) <= number_of(text),
    decreases text.len(),
{
    if k < text.len() {
        lemma_number_grows(text.drop_last(), k);
        assert(text.drop_last().take(k) =~= text.take(k));
    } else {
        assert(text.take(k) =~= text);
    }
}

/// Reads a number in units of `10^-digits`, rounded down. `None` if `text`
/// writes no number, or one beyond 64 bits.
pub fn parse_fixed(text: &str, digits: u64) -> (value: Option<u64>)
    ensures
        value == fixed_u64(text@, digits as nat),
{
    let len: usize = text.unicode_len();
    let ghost whole = whole_part(text@);
    let ghost frac = fraction_part(text@);
    let mut whole_value: u64 = 0;
    let mut overflow: bool = false;
    let mut i: usize = 0;
    while i < len && text.get_char(i) != '.'
        invariant
            i <= len,
            len == text@.len(),
            whole == whole_part(text@),
            first_dot(text@, 0) == first_dot(text@, i as int),
            forall|j: int| 0 <= j < i ==> digit_of(#[trigger] text@[j]) is Some,
            !overflow ==> whole_value == number_of(text@.take(i as int)),
            overflow ==> number_of(text@.take(i as int)) > u64::MAX,
        decreases len - i,
    {
        let digit: u8 = match read_digit(text.get_char(i)) {
            Some(d) => d,
            None => {
                proof {
                    lemma_dot_bounds(text@, i as int);
                    assert(whole[i as int] == text@[i as int]);
                }
                return None;
            },
        };
        proof {
            assert(text@.take(i + 1).drop_last() =~= text@.take(i as int));
        }
        if !overflow {
            match whole_value.checked_mul(10) {
                Some(shifted) => match shifted.checked_add(digit as u64) {
                    Some(next) => {
                        whole_value = next;
                    },
                    None => {
                        overflow = true;
                    },
                },
                None => {
                    overflow = true;
                },
            }
        }
        i += 1;
    }
    let dot: usize = i;
    proof {
        lemma_dot_bounds(text@, dot as int);
        assert(first_dot(text@, 0) == dot);
        assert(whole =~= text@.take(dot as int));
        assert(all_digits(whole));
    }
    let mut fraction: u64 = 0;
    let mut seen: u64 = 0;
    let mut j: usize = if dot < len {
        dot + 1
    } else {
        len
    };
    let start: usize = j;
    while j < len
        invariant
            start <= j <= len,
            len == text@.len(),
            frac == fraction_part(text@),
            frac == text@.subrange(start as int, len as int),
            !overflow ==> whole_value == number_of(whole),
            forall|k: int| 0 <= k < j - start ==> digit_of(#[trigger] frac[k]) is Some,
            seen <= digits,
            seen <= j - start,
            seen < digits ==> seen == j - start,
            !overflow ==> fraction == number_of(frac.take(seen as int)),
            overflow ==> number_of(whole) > u64::MAX || number_of(frac.take(seen as int))
                > u64::MAX,
        decreases len - j,
    {
        let digit: u8 = match read_digit(text.get_char(j)) {
            Some(d) => d,
            None => {
                assert(frac[j - start] == text@[j as int]);
                return None;
            },
        };
        assert(frac[j - start] == text@[j as int]);
        if seen < digits {
            proof {
                assert(frac.take(seen + 1).drop_last() =~= frac.take(seen as int));
            }
            if !overflow {
                match fraction.checked_mul(10) {
                    Some(shifted) => match shifted.checked_add(digit as u64) {
                        Some(next) => {
                            fraction = next;
                        },
                        None => {
                            overflow = true;
                        },
                    },
                    None => {
                        overflow = true;
                    },
                }
            }
            seen += 1;
        }
        j += 1;
    }
    proof {
        assert(all_digits(frac));
        lemma_pow10(0, digits as nat);
        lemma_pow10(0, (digits - seen) as nat);
        if frac.len() >= digits {
            lemma_number_grows(frac.take(digits as int), seen as int);
            assert(frac.take(digits as int).take(seen as int) =~= frac.take(seen as int));
        } else {
            assert(frac.take(seen as int) =~= frac);
        }
        let w = number_of(whole);
        let f = number_of(frac.take(seen as int));
        let scale = pow10(digits as nat);
        let pad = pow10((digits - seen) as nat);
        assert(w * scale >= w) by (nonlinear_arith)
            requires
                scale >= 1,
                w >= 0,
        ;
        assert(f * pad >= f) by (nonlinear_arith)
            requires
                pad >= 1,
                f >= 0,
        ;
    }
    if dot == 0 && start == len {
        return None;
    }
    if overflow {
        return None;
    }
    let scaled: u64 = match times_pow10(whole_value, digits) {
        Some(v) => v,
        None => {
            return None;
        },
    };
    let padded: u64 = match times_pow10(fraction, digits - seen) {
        Some(v) => v,
        None => {
            return None;
        },
    };
    scaled.checked_add(padded)
}

/// Before the first point at or after `from` stands no point, and at it
/// stands one, if it is within the text.
pub proof fn lemma_dot_bounds(text: Seq<char>, from: int)
    requires
        0 <= from <= text.len(),
    ensures
        from <= first_dot(text, from) <= text.len(),
        first_dot(text, from) < text.len() ==> text[first_dot(text, from)] == '.',
        forall|j: int| from <= j < first_dot(text, from) ==> text[j] != '.',
    decreases text.len() - from,
{
    if from < text.len() && text[from] != '.' {
        lemma_dot_bounds(text, from + 1);
    }
}

/// A price bar as the market sends it: times in milliseconds, prices in
/// units of the quote currency per unit of the asset and the volume in units
/// of the asset, as decimal text.
#[derive(Debug, Clone)]
pub struct Kline {
    pub open_time: i64,
    pub close_time: i64,
    pub open: String,
    pub high: String,
    pub low: String,
    pub close: String,
    pub volume: String,
    pub number_of_trades: i64,
}

/// A price per unit of the asset, written as a number, in ticks per lot of
/// `10^-precision` units and rounded down: the price times
/// `10^(QUOTE_DIGITS - precision)`. None where the text writes no number, or
/// where the ticks per lot, or the whole units of the price if a lot is
/// finer than a tick, are beyond 64 bits.
pub open spec fn price_of(text: Seq<char>, precision: u64) -> Option<u64> {
    if precision <= QUOTE_DIGITS {
        fixed_u64(text, (QUOTE_DIGITS - precision) as nat)
    } else {
        match fixed_u64(text, 0) {
            Some(units) => Some((units as nat / pow10((precision - QUOTE_DIGITS) as nat)) as u64),
            None => None,
        }
    }
}

/// Reads a price per unit of the asset as ticks per lot.
pub fn parse_price(text: &str, precision: u64) -> (price: Option<u64>)
    ensures
        price == price_of(text@, precision),
{
    if precision <= QUOTE_DIGITS {
        return parse_fixed(text, QUOTE_DIGITS - precision);
    }
    let units: u64 = match parse_fixed(text, 0) {
        Some(u) => u,
        None => {
            return None;
        },
    };
    let ghost scale = pow10((precision - QUOTE_DIGITS) as nat);
    proof {
        lemma_pow10(0, (precision - QUOTE_DIGITS) as nat);
        assert(1 * scale == scale) by (nonlinear_arith);
    }
    match times_pow10(1, precision - QUOTE_DIGITS) {
        Some(lots_per_tick) => Some(units / lots_per_tick),
        None => {
            assert(units as nat / scale == 0) by (nonlinear_arith)
                requires
                    0 <= units < scale,
            ;
            Some(0)
        },
    }
}

/// The candle that `kline` stands for, where every field can be read:
/// prices in ticks per lot and the volume in lots, all rounded down, with
/// lots of `10^-precision` units.
pub open spec fn candle_of(kline: Kline, precision: u64) -> Option<Candle> {
    if kline.open_time < 0 || kline.close_time < 0 {
        None
    } else {
        match (
            price_of(kline.open@, precision),
            price_of(kline.high@, precision),
            price_of(kline.low@, precision),
            price_of(kline.close@, precision),
            fixed_u64(kline.volume@, precision as nat),
        ) {
            (Some(open), Some(high), Some(low), Some(close), Some(volume)) => Some(
                Candle {
                    open_time: kline.open_time as u64,
                    close_time: kline.close_time as u64,
                    open,
                    high,
                    low,
                    close,
                    volume,
                    trade_count: kline.number_of_trades,
                },
            ),
            _ => None,
        }
    }
}

/// Reads a price bar of `symbol`. `None` where a field cannot be read.
pub fn parse_kline(symbol: &str, kline: &Kline, precision: u64) -> (data: Option<CandleData>)
    ensures
        match candle_of(*kline, precision) {
            Some(candle) => data is Some && data.unwrap().symbol@ == symbol@
                && data.unwrap().candle == candle,
            None => data is None,
        },
{
    if kline.open_time < 0 || kline.close_time < 0 {
        return None;
    }
    let open: u64 = match parse_price(kline.open.as_str(), precision) {
        Some(v) => v,
        None => {
            return None;
        },
    };
    let high: u64 = match parse_price(kline.high.as_str(), precision) {
        Some(v) => v,
        None => {
            return None;
        },
    };
    let low: u64 = match parse_price(kline.low.as_str(), precision) {
        Some(v) => v,
        None => {
            return None;
        },
    };
    let close: u64 = match parse_price(kline.close.as_str(), precision) {
        Some(v) => v,
        None => {
            return None;
        },
    };
    let volume: u64 = match parse_fixed(kline.volume.as_str(), precision) {
        Some(v) => v,
        None => {
            return None;
        },
    };
    Some(
        CandleData {
            symbol: symbol.to_owned(),
            candle: Candle {
                open_time: kline.open_time as u64,
                close_time: kline.close_time as u64,
                open,
                high,
                low,
                close,
                volume,
                trade_count: kline.number_of_trades,
            },
        },
    )
}

} // verus!
