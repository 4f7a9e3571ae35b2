//! Exact integer arithmetic for the ledgers: widening products, proportional
//! shares and signed differences, each with the mathematical value it computes.
use vstd::prelude::*;

verus! {

/// `x` is a value of `u64`.
pub open spec fn fits_u64(x: int) -> bool {
    0 <= x <= u64::MAX
}

/// `x` is a value of `i64`.
pub open spec fn fits_i64(x: int) -> bool {
    i64::MIN <= x <= i64::MAX
}

/// What stays of `total` with the units that are left when `part` units out
/// of `whole` go: their part, rounded down.
pub open spec fn rest(total: nat, part: nat, whole: nat) -> nat {
    if whole == 0 || part >= whole {
        0
    } else {
        (total * (whole - part)) as nat / whole
    }
}

/// The part of `total` that goes with `part` units out of `whole`: all but
/// what stays with the others, so it is rounded up. Zero when there is no
/// whole.
pub open spec fn share(total: nat, part: nat, whole: nat) -> nat {
    if whole == 0 {
        0
    } else {
        (total - rest(total, part, whole)) as nat
    }
}

/// `x / d` rounded toward zero, for a positive divisor.
pub open spec fn div_toward_zero(x: int, d: int) -> int {
    if x >= 0 {
        x / d
    } else {
        -((-x) / d)
    }
}

/// A product of non-negative factors is monotone in both.
pub proof fn lemma_mul_le(a: nat, b: nat, c: nat, d: nat)
    by (nonlinear_arith)
    requires
        a <= c,
        b <= d,
    ensures
        a * b <= c * d,
{
}

/// Quotient and remainder bracket the dividend.
pub proof fn lemma_div_bracket(x: nat, d: nat)
    by (nonlinear_arith)
    requires
        d > 0,
    ensures
        (x / d) * d <= x,
        x < (x / d + 1) * d,
{
}

/// A share never exceeds the total, is the total when the part is the whole
/// and nothing when the part is nothing. What stays keeps the average per
/// unit, in whole numbers, and holds at least one unit of total per unit
/// that stays whenever the total held one per unit of the whole.
pub proof fn lemma_share_bounds(total: nat, part: nat, whole: nat)
    requires
        0 < whole,
        part <= whole,
    ensures
        share(total, part, whole) <= total,
        share(total, part, whole) + rest(total, part, whole) == total,
        part == whole ==> share(total, part, whole) == total,
        part == 0 ==> share(total, part, whole) == 0,
        part < whole ==> rest(total, part, whole) / ((whole - part) as nat) == total / whole,
        total >= whole ==> total - share(total, part, whole) >= whole - part,
{
    if part < whole {
        let q = whole as int;
        let r = (whole - part) as int;
        let e = total as int / q;
        let m = total as int % q;
        vstd::arithmetic::div_mod::lemma_fundamental_div_mod(total as int, q);
        assert(total * r == m * r + (e * r) * q) by (nonlinear_arith)
            requires
                total == q * e + m,
        ;
        vstd::arithmetic::div_mod::lemma_hoist_over_denominator(m * r, e * r, q as nat);
        let t = (m * r) / q;
        assert(0 <= t < r) by (nonlinear_arith)
            requires
                t == (m * r) / q,
                0 <= m < q,
                0 < r,
        ;
        assert(e >= 0) by (nonlinear_arith)
            requires
                e == total as int / q,
                total >= 0,
                q > 0,
        ;
        assert(m * r >= 0) by (nonlinear_arith)
            requires
                m >= 0,
                r > 0,
        ;
        lemma_div_bracket((m * r) as nat, q as nat);
        let kept = rest(total, part, whole) as int;
        assert(kept == e * r + t);
        vstd::arithmetic::div_mod::lemma_fundamental_div_mod_converse(kept, r, e, t);
        assert(kept <= total) by (nonlinear_arith)
            requires
                kept == e * r + t,
                0 <= t < r,
                r <= q,
                total == q * e + m,
                0 <= m,
                e >= 0,
                t * q <= m * r,
        ;
        if total >= whole {
            assert(e >= 1) by (nonlinear_arith)
                requires
                    e == total as int / q,
                    total >= q,
                    q > 0,
            ;
            assert(kept >= r) by (nonlinear_arith)
                requires
                    kept == e * r + t,
                    e >= 1,
                    t >= 0,
                    r > 0,
            ;
        }
        if part == 0 {
            assert(total * q == (total as int) * q);
            assert(kept == total) by (nonlinear_arith)
                requires
                    kept == (total * q) / q,
                    q > 0,
            ;
        }
    }
}

/// Scaling before a division splits into the scaled quotient and the scaled
/// remainder's quotient.
pub proof fn lemma_scaled_div(x: int, d: int, k: int)
    requires
        0 <= x,
        0 < d,
        0 <= k,
    ensures
        (x * k) / d == (x / d) * k + ((x % d) * k) / d,
{
    vstd::arithmetic::div_mod::lemma_fundamental_div_mod(x, d);
    vstd::arithmetic::div_mod::lemma_hoist_over_denominator((x % d) * k, (x / d) * k, d as nat);
    assert((x % d) * k + ((x / d) * k) * d == x * k) by (nonlinear_arith)
        requires
            x == d * (x / d) + x % d,
    ;
}

/// The exact product of two 64-bit numbers.
pub(crate) fn wide_mul(a: u64, b: u64) -> (r: u128)
    ensures
        r == a * b,
{
    proof {
        lemma_mul_le(a as nat, b as nat, u64::MAX as nat, u64::MAX as nat);
        assert(u64::MAX * u64::MAX < u128::MAX) by (nonlinear_arith);
    }
    (a as u128) * (b as u128)
}

/// The share of `total` that goes with `part` units out of `whole`.
pub(crate) fn prorate(total: u64, part: u64, whole: u64) -> (r: u64)
    requires
        0 < whole,
        part <= whole,
    ensures
        r == share(total as nat, part as nat, whole as nat),
{
    if part == whole {
        return total;
    }
    let product: u128 = wide_mul(total, whole - part);
    let kept: u128 = product / (whole as u128);
    proof {
        lemma_share_bounds(total as nat, part as nat, whole as nat);
        assert((total as nat) * ((whole - part) as nat) == total * (whole - part));
    }
    total - (kept as u64)
}

/// `credit - debit` as a signed 64-bit number, when it is one.
pub(crate) fn net(credit: u128, debit: u128) -> (r: Option<i64>)
    ensures
        fits_i64(credit - debit) ==> r == Some((credit - debit) as i64),
        !fits_i64(credit - debit) ==> r is None,
{
    if credit >= debit {
        let gain: u128 = credit - debit;
        if gain > 0x7fff_ffff_ffff_ffff {
            None
        } else {
            Some(gain as i64)
        }
    } else {
        let loss: u128 = debit - credit;
        if loss > 0x8000_0000_0000_0000 {
            None
        } else if loss == 0x8000_0000_0000_0000 {
            Some(i64::MIN)
        } else {
            let magnitude: i64 = loss as i64;
            Some(-magnitude)
        }
    }
}

/// The largest sum of a product of two 64-bit numbers and a third.
pub open spec fn wide_bound() -> int {
    u64::MAX * u64::MAX + u64::MAX
}

/// Such a sum is within `wide_bound()`, which leaves room for one more 64-bit
/// number in 128 bits.
pub proof fn lemma_wide_bound(a: nat, b: nat, c: nat)
    requires
        a <= u64::MAX,
        b <= u64::MAX,
        c <= u64::MAX,
    ensures
        a * b + c <= wide_bound(),
        wide_bound() + u64::MAX <= u128::MAX,
{
    lemma_mul_le(a, b, u64::MAX as nat, u64::MAX as nat);
    assert(u64::MAX * u64::MAX + u64::MAX + u64::MAX <= u128::MAX) by (nonlinear_arith);
}

/// `base + credit - debit` as a signed 64-bit number, when it is one.
pub(crate) fn shift_i64(base: i64, credit: u128, debit: u128) -> (r: Option<i64>)
    requires
        credit <= wide_bound(),
        debit <= wide_bound(),
    ensures
        fits_i64(base + credit - debit) ==> r == Some((base + credit - debit) as i64),
        !fits_i64(base + credit - debit) ==> r is None,
{
    proof {
        lemma_wide_bound(0, 0, 0);
    }
    if base >= 0 {
        net(credit + (base as u128), debit)
    } else if base == i64::MIN {
        net(credit, debit + 0x8000_0000_0000_0000)
    } else {
        let owed: i64 = -base;
        net(credit, debit + (owed as u128))
    }
}

/// `a + b` where the sum is a signed 64-bit number.
pub(crate) fn sum_i64(a: i64, b: i64) -> (r: Option<i64>)
    ensures
        fits_i64(a + b) ==> r == Some((a + b) as i64),
        !fits_i64(a + b) ==> r is None,
{
    a.checked_add(b)
}

/// Ten to the power of `n`.
pub open spec fn pow10(n: nat) -> nat
    decreases n,
{
    if n == 0 {
        1
    } else {
        10 * pow10((n - 1) as nat)
    }
}

/// Powers of ten grow, and the twentieth is beyond 64 bits.
pub proof fn lemma_pow10(a: nat, b: nat)
    requires
        a <= b,
    ensures
        1 <= pow10(a) <= pow10(b),
        b >= 20 ==> pow10(b) > u64::MAX,
    decreases b,
{
    if a < b {
        lemma_pow10(a, (b - 1) as nat);
    } else if a > 0 {
        lemma_pow10((a - 1) as nat, (b - 1) as nat);
    }
    if b == 20 {
        assert(pow10(20) == 100_000_000_000_000_000_000nat) by {
            reveal_with_fuel(pow10, 21);
        }
    }
}

/// `value * 10^exponent`, where that is a 64-bit number.
pub(crate) fn times_pow10(value: u64, exponent: u64) -> (r: Option<u64>)
    ensures
        value * pow10(exponent as nat) <= u64::MAX ==> r == Some(
            (value * pow10(exponent as nat)) as u64,
        ),
        value * pow10(exponent as nat) > u64::MAX ==> r is None,
{
    if value == 0 {
        assert(0 * pow10(exponent as nat) == 0) by (nonlinear_arith);
        return Some(0);
    }
    if exponent >= 20 {
        proof {
            lemma_pow10(20, exponent as nat);
            let scale = pow10(exponent as nat);
            assert(value * scale >= scale) by (nonlinear_arith)
                requires
                    value >= 1,
                    scale >= 0,
            ;
        }
        return None;
    }
    let mut scaled: u64 = value;
    let mut k: u64 = 0;
    assert(value * pow10(0) == value) by (nonlinear_arith)
        requires
            pow10(0) == 1,
    ;
    while k < exponent
        invariant
            k <= exponent,
            value > 0,
            scaled == value * pow10(k as nat),
        decreases exponent - k,
    {
        proof {
            assert(value * pow10((k + 1) as nat) == 10 * (value * pow10(k as nat)))
                by (nonlinear_arith)
                requires
                    pow10((k + 1) as nat) == 10 * pow10(k as nat),
            ;
        }
        match scaled.checked_mul(10) {
            Some(next) => {
                scaled = next;
            },
            None => {
                proof {
                    lemma_pow10((k + 1) as nat, exponent as nat);
                    let reached = pow10((k + 1) as nat);
                    let scale = pow10(exponent as nat);
                    assert(value * reached <= value * scale) by (nonlinear_arith)
                        requires
                            reached <= scale,
                            value >= 0,
                    ;
                }
                return None;
            },
        }
        k += 1;
    }
    Some(scaled)
}

} // verus!
