//! Double-precision seconds, in whole-number arithmetic.
//!
//! Media times come out of quotients (frames by a sample rate, ticks by a time
//! base) and out of numerals. Both are taken to the nearest double-precision
//! number first and to the nearest nanosecond then; of two that are equally
//! near, the even one is taken.
use crate::time::MAX_NANOS;
use vstd::arithmetic::div_mod::{lemma_fundamental_div_mod, lemma_fundamental_div_mod_converse};
use vstd::arithmetic::power2::{
    lemma2_to64, lemma2_to64_rest, lemma_pow2_adds, lemma_pow2_pos, lemma_pow2_strictly_increases,
    lemma_pow2_unfold, pow2,
};
use vstd::prelude::*;

verus! {

/// The least whole number that takes all the digits of a double.
pub const MANTISSA_LOW: u128 = 0x10_0000_0000_0000;

/// The least whole number with more digits than a double has.
pub const MANTISSA_HIGH: u128 = 0x20_0000_0000_0000;

// ---------------------------------------------------------------------------
// Rounding
// ---------------------------------------------------------------------------

/// The whole number nearest to a fraction, and of two the even one.
pub open spec fn round_half_even(p: nat, q: nat) -> nat {
    let floor = p / q;
    let rest = p % q;
    if rest + rest < q {
        floor
    } else if rest + rest > q {
        floor + 1
    } else if floor % 2 == 0 {
        floor
    } else {
        floor + 1
    }
}

/// Divides to the nearest whole number.
pub fn divide_half_even(p: u128, q: u128) -> (result: u128)
    requires
        q > 0,
        p < u128::MAX,
    ensures
        result == round_half_even(p as nat, q as nat),
{
    let floor: u128 = p / q;
    let rest: u128 = p % q;
    assert(floor <= p) by (nonlinear_arith)
        requires
            floor == p / q,
            q > 0,
            p >= 0,
    ;
    let other: u128 = q - rest;
    if rest < other || (rest == other && floor % 2 == 0) {
        floor
    } else {
        floor + 1
    }
}

pub proof fn lemma_pow2_at_most_96(n: nat)
    requires
        n <= 96,
    ensures
        0 < pow2(n) <= 0x1_0000_0000_0000_0000_0000_0000nat,
{
    lemma2_to64();
    lemma_pow2_adds(64, 32);
    lemma_pow2_pos(n);
    if n < 96 {
        lemma_pow2_strictly_increases(n, 96);
    }
}

/// Two to the given power.
pub fn power_of_two(n: u32) -> (result: u128)
    requires
        n <= 96,
    ensures
        result == pow2(n as nat),
        0 < result <= 0x1_0000_0000_0000_0000_0000_0000u128,
{
    let mut result: u128 = 1;
    let mut i: u32 = 0;
    proof {
        lemma2_to64();
    }
    while i < n
        invariant
            i <= n <= 96,
            result == pow2(i as nat),
            0 < result <= 0x1_0000_0000_0000_0000_0000_0000u128,
        decreases n - i,
    {
        proof {
            lemma_pow2_unfold((i + 1) as nat);
            lemma_pow2_at_most_96((i + 1) as nat);
        }
        result = result * 2;
        i += 1;
    }
    result
}

/// The nanoseconds nearest to `m` times two to the power of `e` seconds, if a
/// span can be that long.
pub open spec fn dyadic_nanos(m: nat, e: int) -> Option<nat> {
    let nanos = if e >= 0 {
        m * pow2(e as nat) * 1_000_000_000
    } else {
        round_half_even(m * 1_000_000_000, pow2((-e) as nat))
    };
    if nanos <= MAX_NANOS {
        Some(nanos)
    } else {
        None
    }
}

/// Takes dyadic seconds to the nearest nanosecond.
pub fn dyadic_to_nanos(m: u64, e: i32) -> (result: Option<u128>)
    requires
        m <= MANTISSA_HIGH,
    ensures
        result is Some <==> dyadic_nanos(m as nat, e as int) is Some,
        result matches Some(nanos) ==> dyadic_nanos(m as nat, e as int) == Some(nanos as nat)
            && nanos <= MAX_NANOS,
{
    if e >= 0 {
        if m == 0 {
            assert(0 * pow2(e as nat) * 1_000_000_000 == 0) by (nonlinear_arith);
            return Some(0);
        }
        if e > 64 {
            proof {
                lemma2_to64();
                lemma_pow2_strictly_increases(64, e as nat);
                assert(m * pow2(e as nat) * 1_000_000_000 > MAX_NANOS) by (nonlinear_arith)
                    requires
                        m >= 1,
                        pow2(e as nat) > 0x1_0000_0000_0000_0000,
                        MAX_NANOS == 18_446_744_073_709_551_615_999_999_999,
                ;
            }
            return None;
        }
        let power: u128 = power_of_two(e as u32);
        proof {
            lemma2_to64();
            if e < 64 {
                lemma_pow2_strictly_increases(e as nat, 64);
            }
            assert(0 < m * power <= 0x20_0000_0000_0000 * 0x1_0000_0000_0000_0000) by (nonlinear_arith)
                requires
                    0 < m <= 0x20_0000_0000_0000,
                    0 < power <= 0x1_0000_0000_0000_0000,
            ;
        }
        let seconds: u128 = m as u128 * power;
        if seconds > 0xffff_ffff_ffff_ffff {
            None
        } else {
            Some(seconds * 1_000_000_000)
        }
    } else {
        let p: u128 = m as u128 * 1_000_000_000;
        if e < -96 {
            proof {
                lemma_pow2_at_most_96(96);
                lemma2_to64();
                lemma_pow2_adds(64, 32);
                lemma_pow2_strictly_increases(96, (-e) as nat);
                let q = pow2((-e) as nat);
                assert(p + p < q);
                assert(p as nat / q == 0 && p as nat % q == p) by (nonlinear_arith)
                    requires
                        0 <= p < q,
                ;
            }
            Some(0)
        } else {
            let q: u128 = power_of_two((-e) as u32);
            let nanos: u128 = divide_half_even(p, q);
            proof {
                assert(p / q <= p) by (nonlinear_arith)
                    requires
                        q > 0,
                        p >= 0,
                ;
            }
            Some(nanos)
        }
    }
}

// ---------------------------------------------------------------------------
// Quotients
// ---------------------------------------------------------------------------

/// The numerator of a fraction that is scaled by a power of two.
pub open spec fn scaled_up(p: nat, s: int) -> nat {
    if s > 0 {
        p * pow2(s as nat)
    } else {
        p
    }
}

/// The denominator of a fraction that is scaled by a power of two.
pub open spec fn scaled_down(q: nat, s: int) -> nat {
    if s < 0 {
        q * pow2((-s) as nat)
    } else {
        q
    }
}

/// Whether a fraction that is scaled by a power of two takes all the digits of
/// a double and no more.
pub open spec fn fills_mantissa(p: nat, q: nat, s: int) -> bool {
    MANTISSA_LOW * scaled_down(q, s) <= scaled_up(p, s) < MANTISSA_HIGH * scaled_down(q, s)
}

/// The double nearest to a fraction, as a whole number and a power of two.
pub open spec fn nearest_double(p: nat, q: nat) -> (nat, int) {
    if p == 0 {
        (0, 0)
    } else {
        let s = choose|s: int| #[trigger] fills_mantissa(p, q, s);
        (round_half_even(scaled_up(p, s), scaled_down(q, s)), -s)
    }
}

proof fn lemma_scale_grows(p: nat, q: nat, s: int, t: int)
    requires
        s < t,
    ensures
        scaled_up(p, t) * scaled_down(q, s) >= 2 * scaled_up(p, s) * scaled_down(q, t),
    decreases t - s,
{
    let a = scaled_up(p, t - 1);
    let b = scaled_down(q, t - 1);
    let c = scaled_up(p, t);
    let d = scaled_down(q, t);
    lemma2_to64();
    // One step doubles the numerator or halves the denominator.
    assert(c * b == 2 * a * d) by {
        if t >= 1 {
            lemma_pow2_unfold(t as nat);
            assert(pow2(t as nat) == 2 * pow2((t - 1) as nat));
            if t == 1 {
                assert(pow2(0) == 1);
            }
            assert(c == 2 * a) by (nonlinear_arith)
                requires
                    c == p * pow2(t as nat),
                    a == p * pow2((t - 1) as nat) || (t == 1 && a == p && pow2((t - 1) as nat) == 1),
                    pow2(t as nat) == 2 * pow2((t - 1) as nat),
            ;
            assert(b == q && d == q);
            assert(c * b == 2 * a * d) by (nonlinear_arith)
                requires
                    c == 2 * a,
                    b == d,
            ;
        } else {
            lemma_pow2_unfold((1 - t) as nat);
            assert(pow2((1 - t) as nat) == 2 * pow2((-t) as nat));
            if t == 0 {
                assert(pow2(0) == 1);
            }
            assert(b == 2 * d) by (nonlinear_arith)
                requires
                    b == q * pow2((1 - t) as nat),
                    d == q * pow2((-t) as nat) || (t == 0 && d == q && pow2((-t) as nat) == 1),
                    pow2((1 - t) as nat) == 2 * pow2((-t) as nat),
            ;
            assert(c == a);
            assert(c * b == 2 * a * d) by (nonlinear_arith)
                requires
                    b == 2 * d,
                    c == a,
            ;
        }
    }
    if s + 1 < t {
        lemma_scale_grows(p, q, s, t - 1);
        let x = scaled_up(p, s);
        let y = scaled_down(q, s);
        if b > 0 {
            assert(c * y >= 2 * x * d) by (nonlinear_arith)
                requires
                    c * b == 2 * a * d,
                    a * y >= 2 * x * b,
                    b > 0,
                    a >= 0,
                    c >= 0,
                    d >= 0,
                    x >= 0,
                    y >= 0,
            ;
        } else {
            if t < 0 {
                lemma_pow2_pos((-t) as nat);
            }
            lemma_pow2_pos((1 - t) as nat);
            assert(q == 0) by (nonlinear_arith)
                requires
                    b == 0,
                    b == q || b == q * pow2((1 - t) as nat),
                    pow2((1 - t) as nat) > 0,
            ;
            assert(d == 0) by (nonlinear_arith)
                requires
                    q == 0,
                    d == q || d == q * pow2((-t) as nat),
            ;
            assert(2 * x * d == 0) by (nonlinear_arith)
                requires
                    d == 0,
            ;
            assert(c * y >= 0) by (nonlinear_arith)
                requires
                    c >= 0,
                    y >= 0,
            ;
        }
    }
}

/// Only one scale takes all the digits of a double.
pub proof fn lemma_scale_is_unique(p: nat, q: nat, s: int, t: int)
    requires
        fills_mantissa(p, q, s),
        fills_mantissa(p, q, t),
    ensures
        s == t,
{
    if s != t {
        let (low, high) = if s < t { (s, t) } else { (t, s) };
        lemma_scale_grows(p, q, low, high);
        let a = scaled_up(p, low);
        let b = scaled_down(q, low);
        let c = scaled_up(p, high);
        let d = scaled_down(q, high);
        assert(false) by (nonlinear_arith)
            requires
                c * b >= 2 * a * d,
                0x10_0000_0000_0000 * b <= a,
                c < 0x20_0000_0000_0000 * d,
                a < 0x20_0000_0000_0000 * b,
                a >= 0,
                b >= 0,
                c >= 0,
                d >= 0,
        ;
    }
}

/// A small fraction can be scaled up to take all the digits of a double.
pub proof fn lemma_scale_up_exists(p: nat, q: nat, s: nat) -> (t: int)
    requires
        p > 0,
        q > 0,
        p * pow2(s) < 0x20_0000_0000_0000 * q,
        s > 0,
    ensures
        t > 0,
        fills_mantissa(p, q, t),
    decreases 0x20_0000_0000_0000 * q - p * pow2(s),
{
    if p * pow2(s) >= 0x10_0000_0000_0000 * q {
        s as int
    } else {
        lemma_pow2_unfold(s + 1);
        lemma_pow2_pos(s);
        assert(p * pow2(s + 1) == 2 * (p * pow2(s)) && p * pow2(s) > 0) by (nonlinear_arith)
            requires
                pow2(s + 1) == 2 * pow2(s),
                p > 0,
                pow2(s) > 0,
        ;
        lemma_scale_up_exists(p, q, s + 1)
    }
}

/// A large fraction can be scaled down to take all the digits of a double.
proof fn lemma_scale_down_exists(p: nat, q: nat, s: nat) -> (t: int)
    requires
        q > 0,
        p >= 0x10_0000_0000_0000 * (q * pow2(s)),
        s > 0,
    ensures
        fills_mantissa(p, q, t),
    decreases p - q * pow2(s),
{
    lemma_pow2_pos(s);
    assert(q * pow2(s) > 0) by (nonlinear_arith)
        requires
            q > 0,
            pow2(s) > 0,
    ;
    if p < 0x20_0000_0000_0000 * (q * pow2(s)) {
        -(s as int)
    } else {
        lemma_pow2_unfold(s + 1);
        assert(q * pow2(s + 1) == 2 * (q * pow2(s))) by (nonlinear_arith)
            requires
                pow2(s + 1) == 2 * pow2(s),
        ;
        lemma_scale_down_exists(p, q, s + 1)
    }
}

/// Every fraction can be scaled to take all the digits of a double.
pub proof fn lemma_scale_exists(p: nat, q: nat) -> (t: int)
    requires
        p > 0,
        q > 0,
    ensures
        fills_mantissa(p, q, t),
{
    lemma2_to64();
    if p < 0x10_0000_0000_0000 * q {
        assert(p * pow2(1) == 2 * p) by (nonlinear_arith)
            requires
                pow2(1) == 2,
        ;
        lemma_scale_up_exists(p, q, 1)
    } else if p < 0x20_0000_0000_0000 * q {
        assert(fills_mantissa(p, q, 0));
        0
    } else {
        assert(q * pow2(1) == 2 * q) by (nonlinear_arith)
            requires
                pow2(1) == 2,
        ;
        lemma_scale_down_exists(p, q, 1)
    }
}

/// Takes a fraction to the nearest double.
fn nearest_of(p: u128, q: u128) -> (result: (u64, i32))
    requires
        p < 0x10_0000_0000_0000_0000_0000_0000,
        0 < q <= 0x40_0000_0000_0000,
    ensures
        (result.0 as nat, result.1 as int) == nearest_double(p as nat, q as nat),
        result.0 == 0 || MANTISSA_LOW <= result.0 <= MANTISSA_HIGH,
        -107 <= result.1 <= 96,
        p > 0 ==> fills_mantissa(p as nat, q as nat, -result.1 as int),
{
    if p == 0 {
        return (0, 0);
    }
    let mut up: u128 = p;
    let mut down: u128 = q;
    let mut s: i32 = 0;
    proof {
        lemma2_to64();
        assert(pow2(0) == 1);
        assert(p * 1 == p && q * 1 == q) by (nonlinear_arith);
    }
    if p < MANTISSA_HIGH * q {
        while up < MANTISSA_LOW * q
            invariant
                0 < p,
                0 < q <= 0x40_0000_0000_0000,
                down == q,
                0 <= s <= 107,
                up == p * pow2(s as nat),
                up == scaled_up(p as nat, s as int),
                0 < up < MANTISSA_HIGH * q,
            decreases MANTISSA_HIGH * q - up,
        {
            proof {
                lemma_pow2_unfold((s + 1) as nat);
                assert(p * pow2((s + 1) as nat) == 2 * (p * pow2(s as nat))) by (nonlinear_arith)
                    requires
                        pow2((s + 1) as nat) == 2 * pow2(s as nat),
                ;
                lemma2_to64();
                lemma2_to64_rest();
                lemma_pow2_adds(64, 43);
                assert(pow2(107) == 0x1_0000_0000_0000_0000 * 0x800_0000_0000);
                assert(pow2(s as nat) <= up) by (nonlinear_arith)
                    requires
                        up == p * pow2(s as nat),
                        p >= 1,
                        pow2(s as nat) >= 0,
                ;
                if s >= 107 {
                    assert(false);
                }
            }
            up = up * 2;
            s += 1;
        }
    } else {
        while up >= MANTISSA_HIGH * down
            invariant
                0 < q <= 0x40_0000_0000_0000,
                up == p,
                p < 0x10_0000_0000_0000_0000_0000_0000,
                -96 <= s <= 0,
                down == q * pow2((-s) as nat),
                down == scaled_down(q as nat, s as int),
                0 < down <= 0x1_0000_0000_0000_0000_0000_0000,
                up >= MANTISSA_LOW * down,
            decreases up - down,
        {
            proof {
                lemma_pow2_unfold((1 - s) as nat);
                assert(q * pow2((1 - s) as nat) == 2 * (q * pow2((-s) as nat))) by (nonlinear_arith)
                    requires
                        pow2((1 - s) as nat) == 2 * pow2((-s) as nat),
                ;
                lemma2_to64();
                lemma_pow2_adds(64, 32);
                assert(pow2((-s) as nat) <= down) by (nonlinear_arith)
                    requires
                        down == q * pow2((-s) as nat),
                        q >= 1,
                        pow2((-s) as nat) >= 0,
                ;
                if s <= -96 {
                    assert(false);
                }
            }
            down = down * 2;
            s -= 1;
        }
    }
    let ghost fraction_p = scaled_up(p as nat, s as int);
    let ghost fraction_q = scaled_down(q as nat, s as int);
    assert(up == fraction_p && down == fraction_q);
    assert(fills_mantissa(p as nat, q as nat, s as int));
    proof {
        let t = choose|t: int| #[trigger] fills_mantissa(p as nat, q as nat, t);
        lemma_scale_is_unique(p as nat, q as nat, s as int, t);
    }
    let m: u128 = divide_half_even(up, down);
    assert(MANTISSA_LOW <= m <= MANTISSA_HIGH) by {
        assert(0x10_0000_0000_0000 <= up / down < 0x20_0000_0000_0000) by (nonlinear_arith)
            requires
                0x10_0000_0000_0000 * down <= up < 0x20_0000_0000_0000 * down,
                down > 0,
                up >= 0,
        ;
    }
    (m as u64, -s)
}

/// A whole number as a double, which is whole again.
pub open spec fn as_double(n: nat) -> nat {
    if n < MANTISSA_HIGH {
        n
    } else {
        let (m, e) = nearest_double(n, 1);
        m * pow2(e as nat)
    }
}

/// Takes a whole number to the nearest double.
fn to_double(n: u128) -> (result: u128)
    requires
        n < 0x8_0000_0000_0000_0000_0000_0000,
    ensures
        result == as_double(n as nat),
        result <= 2 * n,
        n > 0 ==> result > 0,
{
    if n < MANTISSA_HIGH {
        return n;
    }
    let (m, e) = nearest_of(n, 1);
    proof {
        lemma_nearest_whole(n as nat, e as int);
    }
    let power: u128 = power_of_two(e as u32);
    m as u128 * power
}

/// The double nearest to a large whole number is a whole number, and no more
/// than twice as large.
proof fn lemma_nearest_whole(n: nat, e: int)
    requires
        n >= MANTISSA_HIGH,
        nearest_double(n, 1).1 == e,
        fills_mantissa(n, 1, -e),
    ensures
        e > 0,
        nearest_double(n, 1).0 * pow2(e as nat) <= 2 * n,
        nearest_double(n, 1).0 * pow2(e as nat) > 0,
{
    lemma2_to64();
    if e <= 0 {
        if e < 0 {
            lemma_pow2_pos((-e) as nat);
            assert(n * pow2((-e) as nat) >= n) by (nonlinear_arith)
                requires
                    pow2((-e) as nat) >= 1,
                    n >= 0,
            ;
        }
        assert(false);
    }
    let q = pow2(e as nat);
    lemma_pow2_pos(e as nat);
    assert(scaled_down(1, -e) == q);
    assert(scaled_up(n, -e) == n);
    let s = choose|s: int| #[trigger] fills_mantissa(n, 1, s);
    assert(-s == e);
    let m = round_half_even(n, q);
    assert(nearest_double(n, 1).0 == m);
    assert(m * q <= 2 * n) by (nonlinear_arith)
        requires
            m <= n / q + 1,
            q > 0,
            0x10_0000_0000_0000 * q <= n,
            n >= 0,
    ;
    assert(m * q > 0) by (nonlinear_arith)
        requires
            m >= n / q,
            q > 0,
            0x10_0000_0000_0000 * q <= n,
    ;
}

/// The time that a number of frames takes at a rate per second.
pub open spec fn quotient_nanos(count: nat, rate: nat) -> Option<nat> {
    let (m, e) = nearest_double(as_double(count), rate);
    dyadic_nanos(m, e)
}

/// The time that a number of frames takes at a rate per second.
pub fn quotient_to_nanos(count: u64, rate: u32) -> (result: Option<u128>)
    requires
        rate > 0,
    ensures
        result is Some <==> quotient_nanos(count as nat, rate as nat) is Some,
        result matches Some(nanos) ==> quotient_nanos(count as nat, rate as nat) == Some(
            nanos as nat,
        ) && nanos <= MAX_NANOS,
        count * 5_000_000_000 <= MAX_NANOS ==> result is Some,
        count * 4_000_000_000 + rate <= MAX_NANOS * rate ==> result is Some,
        result matches Some(nanos) ==> nanos <= count * 5_000_000_000,
{
    let whole: u128 = to_double(count as u128);
    let (m, e) = nearest_of(whole, rate as u128);
    proof {
        lemma_quotient_bound(count as nat, rate as nat);
    }
    dyadic_to_nanos(m, e)
}

/// The time of a count of ticks, each `num` by `den` seconds long.
pub open spec fn ticks_nanos(ticks: nat, num: nat, den: nat) -> Option<nat> {
    let (m, e) = nearest_double(as_double(as_double(ticks) * num), den);
    dyadic_nanos(m, e)
}

/// The time of a count of ticks, each `num` by `den` seconds long.
pub fn ticks_to_nanos(ticks: u64, num: u32, den: u32) -> (result: Option<u128>)
    requires
        num <= 0x8000_0000,
        den > 0,
        ticks <= 0x8000_0000_0000_0000,
    ensures
        result is Some <==> ticks_nanos(ticks as nat, num as nat, den as nat) is Some,
        result matches Some(nanos) ==> ticks_nanos(ticks as nat, num as nat, den as nat) == Some(
            nanos as nat,
        ) && nanos <= MAX_NANOS,
{
    let count: u128 = to_double(ticks as u128);
    assert(count * num <= 0x8000_0000 * 0x1_0000_0000_0000_0000) by (nonlinear_arith)
        requires
            0 <= count <= 0x1_0000_0000_0000_0000,
            0 <= num <= 0x8000_0000,
    ;
    let product: u128 = to_double(count * num as u128);
    let (m, e) = nearest_of(product, den as u128);
    dyadic_to_nanos(m, e)
}

/// The seconds that a count of ticks takes, as the nearest double.
pub fn ticks_to_seconds(ticks: u64, num: u32, den: u32) -> (result: (u64, i32))
    requires
        num <= 0x8000_0000,
        den > 0,
        ticks <= 0x8000_0000_0000_0000,
    ensures
        (result.0 as nat, result.1 as int) == nearest_double(
            as_double(as_double(ticks as nat) * num as nat),
            den as nat,
        ),
        result.0 == 0 || MANTISSA_LOW <= result.0 <= MANTISSA_HIGH,
        -107 <= result.1 <= 96,
{
    let count: u128 = to_double(ticks as u128);
    assert(count * num <= 0x8000_0000 * 0x1_0000_0000_0000_0000) by (nonlinear_arith)
        requires
            0 <= count <= 0x1_0000_0000_0000_0000,
            0 <= num <= 0x8000_0000,
    ;
    let product: u128 = to_double(count * num as u128);
    nearest_of(product, den as u128)
}

/// The double nearest to a fraction is not more than twice the fraction.
proof fn lemma_nearest_bound(p: nat, q: nat, s: int)
    requires
        p > 0,
        q > 0,
        fills_mantissa(p, q, s),
    ensures
        nearest_double(p, q).1 == -s,
        nearest_double(p, q).0 * scaled_down(q, s) <= 2 * scaled_up(p, s),
{
    let t = choose|t: int| #[trigger] fills_mantissa(p, q, t);
    lemma_scale_is_unique(p, q, s, t);
    let a = scaled_up(p, s);
    let b = scaled_down(q, s);
    if s < 0 {
        lemma_pow2_pos((-s) as nat);
    }
    assert(b > 0) by (nonlinear_arith)
        requires
            q > 0,
            b == q || (b == q * pow2((-s) as nat) && pow2((-s) as nat) > 0),
    ;
    let m = round_half_even(a, b);
    assert(m * b <= 2 * a) by (nonlinear_arith)
        requires
            m <= a / b + 1,
            b > 0,
            0x10_0000_0000_0000 * b <= a,
            a >= 0,
    ;
}

/// A whole number is not more than doubled on its way to a double.
proof fn lemma_as_double_bound(n: nat)
    requires
        n > 0,
    ensures
        0 < as_double(n) <= 2 * n,
{
    if n >= MANTISSA_HIGH {
        let s = lemma_scale_exists(n, 1);
        lemma_nearest_bound(n, 1, s);
        lemma_nearest_whole(n, -s);
    }
}

/// A number of frames takes less than five seconds each, whatever the rate, and
/// less the higher the rate.
pub proof fn lemma_quotient_bound(count: nat, rate: nat)
    requires
        rate > 0,
    ensures
        quotient_nanos(count, rate) matches Some(nanos) ==> nanos <= count * 5_000_000_000,
        count * 5_000_000_000 <= MAX_NANOS ==> quotient_nanos(count, rate) is Some,
        count * 4_000_000_000 + rate <= MAX_NANOS * rate ==> quotient_nanos(count, rate) is Some,
{
    if count > 0 {
        lemma_as_double_bound(count);
        let s = lemma_scale_exists(as_double(count), rate);
        lemma_quotient_bound_at(count, rate, s);
    } else {
        lemma2_to64();
        assert(dyadic_nanos(0, 0) == Some(0nat)) by {
            assert(0 * pow2(0) * 1_000_000_000 == 0) by (nonlinear_arith);
        }
    }
}

/// The nanoseconds nearest to dyadic seconds, however many.
spec fn unbounded_nanos(m: nat, e: int) -> nat {
    if e >= 0 {
        m * pow2(e as nat) * 1_000_000_000
    } else {
        round_half_even(m * 1_000_000_000, pow2((-e) as nat))
    }
}

proof fn lemma_quotient_bound_at(count: nat, rate: nat, s: int)
    requires
        rate > 0,
        count > 0,
        0 < as_double(count) <= 2 * count,
        fills_mantissa(as_double(count), rate, s),
    ensures
        quotient_nanos(count, rate) matches Some(nanos) ==> nanos <= count * 5_000_000_000,
        count * 5_000_000_000 <= MAX_NANOS ==> quotient_nanos(count, rate) is Some,
        count * 4_000_000_000 + rate <= MAX_NANOS * rate ==> quotient_nanos(count, rate) is Some,
{
    let p = as_double(count);
    lemma_nearest_bound(p, rate, s);
    let (m, e) = nearest_double(p, rate);
    let nanos = unbounded_nanos(m, e);
    assert(nanos * rate <= count * 4_000_000_000 + rate) by {
        if e >= 0 {
            let power = pow2(e as nat);
            lemma2_to64();
            assert(e == 0 ==> power == 1);
            assert(m * power * 1_000_000_000 * rate <= count * 4_000_000_000) by (nonlinear_arith)
                requires
                    m * (rate * power) <= 2 * p,
                    p <= 2 * count,
            ;
        } else {
            let power = pow2((-e) as nat);
            lemma_pow2_pos((-e) as nat);
            let a = m * 1_000_000_000;
            assert(m * rate <= 4 * count * power) by (nonlinear_arith)
                requires
                    m * rate <= 2 * (p * power),
                    p <= 2 * count,
                    power >= 0,
            ;
            assert(nanos * power <= a + power) by (nonlinear_arith)
                requires
                    nanos <= a / power + 1,
                    power > 0,
                    a >= 0,
            ;
            assert(nanos * rate * power <= (count * 4_000_000_000 + rate) * power)
                by (nonlinear_arith)
                requires
                    nanos * power <= a + power,
                    a == m * 1_000_000_000,
                    m * rate <= 4 * count * power,
                    rate > 0,
                    power > 0,
                    nanos >= 0,
            ;
            assert(nanos * rate <= count * 4_000_000_000 + rate) by (nonlinear_arith)
                requires
                    nanos * rate * power <= (count * 4_000_000_000 + rate) * power,
                    power > 0,
            ;
        }
    }
    assert(nanos <= count * 5_000_000_000) by (nonlinear_arith)
        requires
            nanos * rate <= count * 4_000_000_000 + rate,
            rate >= 1,
            count >= 1,
            nanos >= 0,
    ;
    if count * 4_000_000_000 + rate <= MAX_NANOS * rate {
        assert(nanos <= MAX_NANOS) by (nonlinear_arith)
            requires
                nanos * rate <= count * 4_000_000_000 + rate,
                count * 4_000_000_000 + rate <= MAX_NANOS * rate,
                rate >= 1,
        ;
    }
}

// ---------------------------------------------------------------------------
// Scaled time
// ---------------------------------------------------------------------------

/// Scaling both parts of a fraction does not change what it rounds to.
pub proof fn lemma_round_scaled(p: nat, q: nat, c: nat)
    requires
        q > 0,
        c > 0,
    ensures
        round_half_even(p * c, q * c) == round_half_even(p, q),
{
    let floor = p / q;
    let rest = p % q;
    lemma_fundamental_div_mod(p as int, q as int);
    assert(p * c == (q * c) * floor + rest * c && 0 <= rest * c < q * c) by (nonlinear_arith)
        requires
            p == q * floor + rest,
            0 <= rest < q,
            c > 0,
    ;
    assert((q * c) * floor == floor * (q * c)) by (nonlinear_arith);
    lemma_fundamental_div_mod_converse(
        (p * c) as int,
        (q * c) as int,
        floor as int,
        (rest * c) as int,
    );
    assert(rest * c + rest * c < q * c <==> rest + rest < q) by (nonlinear_arith)
        requires
            c > 0,
    ;
    assert(rest * c + rest * c > q * c <==> rest + rest > q) by (nonlinear_arith)
        requires
            c > 0,
    ;
}

/// The number of binary digits of a whole number, and the power of two below it.
fn count_digits(p: u128) -> (result: u32)
    requires
        0 < p < 0x4000_0000_0000_0000_0000_0000_0000_0000,
    ensures
        1 <= result <= 126,
        pow2((result - 1) as nat) <= p < pow2(result as nat),
{
    let mut rest: u128 = p / 2;
    let mut count: u32 = 1;
    let ghost mut power: nat = 2;
    proof {
        lemma2_to64();
        assert(pow2(1) == 2);
    }
    while rest > 0
        invariant
            1 <= count <= 126,
            power == pow2(count as nat),
            rest * power <= p < (rest + 1) * power,
            pow2((count - 1) as nat) <= p,
            p < 0x4000_0000_0000_0000_0000_0000_0000_0000,
        decreases rest,
    {
        proof {
            lemma_pow2_unfold((count + 1) as nat);
            lemma_pow2_pos(count as nat);
            let half = rest / 2;
            let double = pow2((count + 1) as nat);
            assert(half * double <= p < (half + 1) * double) by (nonlinear_arith)
                requires
                    rest * power <= p < (rest + 1) * power,
                    double == 2 * power,
                    2 * half <= rest <= 2 * half + 1,
                    power > 0,
            ;
            assert(power <= p) by (nonlinear_arith)
                requires
                    rest * power <= p,
                    rest >= 1,
                    power > 0,
            ;
            lemma2_to64();
            lemma2_to64_rest();
            lemma_pow2_adds(64, 62);
            assert(pow2(126) == 0x4000_0000_0000_0000_0000_0000_0000_0000nat);
            if count >= 126 {
                assert(false);
            }
            power = double;
        }
        rest = rest / 2;
        count += 1;
    }
    assert(p < pow2(count as nat)) by (nonlinear_arith)
        requires
            p < (rest + 1) * power,
            rest == 0,
            power == pow2(count as nat),
    ;
    count
}

/// Takes a fraction by a power of two to the nearest double.
fn nearest_dyadic(p: u128, k: u32) -> (result: (u64, i32))
    requires
        p < 0x4000_0000_0000_0000_0000_0000_0000_0000,
        k <= 96,
    ensures
        (result.0 as nat, result.1 as int) == nearest_double(p as nat, pow2(k as nat)),
        result.0 == 0 || MANTISSA_LOW <= result.0 <= MANTISSA_HIGH,
        -160 <= result.1 <= 96,
{
    if p == 0 {
        return (0, 0);
    }
    let length: u32 = count_digits(p);
    let ghost q = pow2(k as nat);
    proof {
        lemma2_to64();
        lemma2_to64_rest();
        lemma_pow2_pos(k as nat);
    }
    if length > 53 {
        let r: u32 = length - 53;
        let power: u128 = power_of_two(r);
        let m: u128 = divide_half_even(p, power);
        let s: i32 = k as i32 - r as i32;
        proof {
            let low = pow2((length - 1) as nat);
            let high = pow2(length as nat);
            lemma_pow2_adds(52, r as nat);
            lemma_pow2_adds(53, r as nat);
            assert(pow2(52) == MANTISSA_LOW && pow2(53) == MANTISSA_HIGH);
            assert(MANTISSA_LOW * power <= p < MANTISSA_HIGH * power);
            lemma_dyadic_scale(p as nat, k as nat, r as nat, s as int);
            assert(0x10_0000_0000_0000 <= p / power < 0x20_0000_0000_0000) by (nonlinear_arith)
                requires
                    0x10_0000_0000_0000 * power <= p < 0x20_0000_0000_0000 * power,
                    power > 0,
                    p >= 0,
            ;
        }
        (m as u64, -s)
    } else {
        let r: u32 = 53 - length;
        let power: u128 = power_of_two(r);
        let s: i32 = k as i32 + r as i32;
        proof {
            lemma_pow2_adds((length - 1) as nat, r as nat);
            lemma_pow2_adds(length as nat, r as nat);
            assert(pow2(52) == MANTISSA_LOW && pow2(53) == MANTISSA_HIGH);
            assert(MANTISSA_LOW <= p * power < MANTISSA_HIGH) by (nonlinear_arith)
                requires
                    pow2((length - 1) as nat) <= p < pow2(length as nat),
                    power > 0,
                    pow2((length - 1) as nat) * power == MANTISSA_LOW,
                    pow2(length as nat) * power == MANTISSA_HIGH,
            ;
            lemma_dyadic_exact(p as nat, k as nat, r as nat);
        }
        let m: u128 = p * power;
        (m as u64, -s)
    }
}

/// A long numerator is rounded at its own place, whatever the denominator.
proof fn lemma_dyadic_scale(p: nat, k: nat, r: nat, s: int)
    requires
        p > 0,
        s == k - r,
        MANTISSA_LOW * pow2(r) <= p < MANTISSA_HIGH * pow2(r),
    ensures
        nearest_double(p, pow2(k)) == (round_half_even(p, pow2(r)), -s),
{
    let q = pow2(k);
    lemma_pow2_pos(k);
    lemma_pow2_pos(r);
    if s > 0 {
        let c = pow2(s as nat);
        lemma_pow2_pos(s as nat);
        lemma_pow2_adds(r, s as nat);
        assert(q == pow2(r) * c);
        assert(MANTISSA_LOW * q <= p * c < MANTISSA_HIGH * q) by (nonlinear_arith)
            requires
                q == pow2(r) * c,
                MANTISSA_LOW * pow2(r) <= p < MANTISSA_HIGH * pow2(r),
                c > 0,
        ;
        lemma_round_scaled(p, pow2(r), c);
    } else if s < 0 {
        lemma_pow2_adds(k, (-s) as nat);
        assert(scaled_down(q, s) == pow2(r));
    } else {
        assert(q == pow2(r));
    }
    assert(fills_mantissa(p, q, s));
    let t = choose|t: int| #[trigger] fills_mantissa(p, q, t);
    lemma_scale_is_unique(p, q, s, t);
}

/// A short numerator is a double already.
proof fn lemma_dyadic_exact(p: nat, k: nat, r: nat)
    requires
        p > 0,
        MANTISSA_LOW <= p * pow2(r) < MANTISSA_HIGH,
    ensures
        nearest_double(p, pow2(k)) == ((p * pow2(r)) as nat, -(k + r)),
{
    let q = pow2(k);
    let s = k + r;
    lemma_pow2_pos(k);
    lemma_pow2_adds(k, r);
    lemma2_to64();
    let whole = (p * pow2(r)) as nat;
    if s > 0 {
        assert(p * pow2(s as nat) == whole * q) by (nonlinear_arith)
            requires
                pow2(s as nat) == q * pow2(r),
                whole == p * pow2(r),
        ;
        assert(MANTISSA_LOW * q <= whole * q < MANTISSA_HIGH * q) by (nonlinear_arith)
            requires
                MANTISSA_LOW <= whole < MANTISSA_HIGH,
                q > 0,
        ;
        lemma_fundamental_div_mod_converse((whole * q) as int, q as int, whole as int, 0);
        assert(round_half_even(whole * q, q) == whole);
    } else {
        assert(pow2(0) == 1 && q == 1);
        assert(p * 1 == p) by (nonlinear_arith);
        assert(whole == p);
        assert(p / 1 == p && p % 1 == 0);
    }
    assert(fills_mantissa(p, q, s as int));
    let t = choose|t: int| #[trigger] fills_mantissa(p, q, t);
    lemma_scale_is_unique(p, q, s as int, t);
}

/// A span in seconds, as a double: the whole seconds and the fraction are each
/// taken to the nearest, and then their sum.
pub open spec fn span_seconds(nanos: nat) -> (nat, int) {
    let whole = as_double(nanos / 1_000_000_000);
    let (m, e) = nearest_double(nanos % 1_000_000_000, 1_000_000_000);
    if nanos % 1_000_000_000 == 0 {
        nearest_double(whole, 1)
    } else {
        nearest_double(whole * pow2((-e) as nat) + m, pow2((-e) as nat))
    }
}

/// The product of two doubles.
pub open spec fn double_product(a: (nat, int), b: (nat, int)) -> (nat, int) {
    let (m, e) = nearest_double(a.0 * b.0, 1);
    (m, e + a.1 + b.1)
}

/// Whether a double is too large to be finite.
pub open spec fn is_beyond(number: (nat, int)) -> bool {
    number.1 > 971 || (number.1 == 971 && number.0 >= MANTISSA_HIGH)
}

/// A span times a factor, in nanoseconds. What is too large for a double counts
/// as none.
pub open spec fn scaled_nanos(nanos: nat, factor: (nat, int)) -> Option<nat> {
    let product = double_product(span_seconds(nanos), factor);
    if product.0 == 0 || is_beyond(product) {
        Some(0)
    } else {
        dyadic_nanos(product.0, product.1)
    }
}

/// The number of binary digits of a whole number.
proof fn lemma_length(p: nat) -> (n: nat)
    requires
        p > 0,
    ensures
        n >= 1,
        pow2((n - 1) as nat) <= p < pow2(n),
    decreases p,
{
    lemma2_to64();
    if p == 1 {
        1
    } else {
        let half = lemma_length(p / 2);
        lemma_pow2_unfold(half);
        lemma_pow2_unfold(half + 1);
        half + 1
    }
}

/// Of the digits far behind the place of rounding it only matters whether there
/// are any.
proof fn lemma_sticky_round(a: nat, b: nat, t: nat, u: nat)
    requires
        u >= 1,
        b < pow2(t),
    ensures
        round_half_even(a * pow2(t) + b, pow2(t + u)) == round_half_even(
            2 * a + (if b > 0 {
                1nat
            } else {
                0nat
            }),
            pow2(u + 1),
        ),
{
    let c = pow2(t);
    let d = pow2(u);
    let h = pow2((u - 1) as nat);
    let any: nat = if b > 0 {
        1
    } else {
        0
    };
    lemma_pow2_pos(t);
    lemma_pow2_pos((u - 1) as nat);
    lemma_pow2_unfold(u);
    lemma_pow2_unfold(u + 1);
    lemma_pow2_adds(t, u);
    let f = a / d;
    let g = a % d;
    lemma_fundamental_div_mod(a as int, d as int);
    assert(a * c + b == f * (c * d) + (g * c + b) && 0 <= g * c + b < c * d) by (nonlinear_arith)
        requires
            a == d * f + g,
            0 <= g < d,
            0 <= b < c,
    ;
    lemma_fundamental_div_mod_converse(
        (a * c + b) as int,
        (c * d) as int,
        f as int,
        (g * c + b) as int,
    );
    assert(2 * a + any == f * (2 * d) + (2 * g + any)) by (nonlinear_arith)
        requires
            a == d * f + g,
    ;
    lemma_fundamental_div_mod_converse(
        (2 * a + any) as int,
        (2 * d) as int,
        f as int,
        (2 * g + any) as int,
    );
    assert(c * d == 2 * (h * c)) by (nonlinear_arith)
        requires
            d == 2 * h,
    ;
    if g < h {
        assert(g * c + c <= h * c) by (nonlinear_arith)
            requires
                g + 1 <= h,
                c > 0,
        ;
    } else if g > h {
        assert(g * c >= h * c + c) by (nonlinear_arith)
            requires
                g >= h + 1,
                c > 0,
        ;
    }
}

/// The double nearest to a fraction with many digits is that nearest to one with
/// few.
proof fn lemma_sticky_double(a: nat, b: nat, t: nat)
    requires
        a >= pow2(53),
        b < pow2(t),
    ensures
        nearest_double(a * pow2(t) + b, pow2(t + 13)) == nearest_double(
            2 * a + (if b > 0 {
                1nat
            } else {
                0nat
            }),
            pow2(14),
        ),
{
    let any: nat = if b > 0 {
        1
    } else {
        0
    };
    let p = a * pow2(t) + b;
    let few = 2 * a + any;
    lemma_pow2_pos(53);
    lemma_pow2_pos(t);
    let n = lemma_length(a);
    if n <= 53 {
        if n < 53 {
            lemma_pow2_strictly_increases(n, 53);
        }
        assert(false);
    }
    lemma2_to64();
    lemma2_to64_rest();
    let u = (n - 53) as nat;
    let r = t + u;
    lemma_pow2_adds(52, r);
    lemma_pow2_adds(53, r);
    lemma_pow2_adds((n - 1) as nat, t);
    lemma_pow2_adds(n, t);
    assert(pow2((n - 1) as nat) * pow2(t) <= p < pow2(n) * pow2(t)) by (nonlinear_arith)
        requires
            pow2((n - 1) as nat) <= a,
            a + 1 <= pow2(n),
            p == a * pow2(t) + b,
            0 <= b < pow2(t),
    ;
    assert(52 + r == n - 1 + t && 53 + r == n + t);
    lemma_dyadic_scale(p, t + 13, r, (t + 13 - r) as int);
    lemma_pow2_adds(52, u + 1);
    lemma_pow2_adds(53, u + 1);
    lemma_pow2_unfold(n);
    lemma_pow2_unfold(n + 1);
    assert(52 + (u + 1) == n && 53 + (u + 1) == n + 1);
    lemma_dyadic_scale(few, 14, u + 1, (14 - (u + 1)) as int);
    lemma_sticky_round(a, b, t, u);
}

/// Takes a span to seconds.
pub fn to_span_seconds(nanos: u128) -> (result: (u64, i32))
    requires
        nanos <= MAX_NANOS,
    ensures
        (result.0 as nat, result.1 as int) == span_seconds(nanos as nat),
        result.0 == 0 || MANTISSA_LOW <= result.0 <= MANTISSA_HIGH,
        -160 <= result.1 <= 96,
{
    let seconds: u128 = nanos / 1_000_000_000;
    let part: u128 = nanos % 1_000_000_000;
    let whole: u128 = to_double(seconds);
    if part == 0 {
        return nearest_of(whole, 1);
    }
    let (m, e) = nearest_of(part, 1_000_000_000);
    proof {
        // A part of a second takes a scale that makes it a fraction.
        lemma2_to64();
        lemma2_to64_rest();
        let s = -(e as int);
        assert(fills_mantissa(part as nat, 1_000_000_000, s));
        if s < 53 {
            if s < 0 {
                lemma_pow2_pos((-s) as nat);
                assert(1_000_000_000 * pow2((-s) as nat) >= 1_000_000_000) by (nonlinear_arith)
                    requires
                        pow2((-s) as nat) >= 1,
                ;
            } else if s > 0 {
                if s < 52 {
                    lemma_pow2_strictly_increases(s as nat, 52);
                }
                assert(part * pow2(s as nat) < 1_000_000_000 * 0x10_0000_0000_0000)
                    by (nonlinear_arith)
                    requires
                        part < 1_000_000_000,
                        0 < pow2(s as nat) <= 0x10_0000_0000_0000,
                ;
            }
            assert(false);
        }
        // It is no smaller than a nanosecond.
        if s > 83 {
            lemma_pow2_strictly_increases(83, s as nat);
            lemma_pow2_adds(64, 19);
            assert(pow2(83) == 0x1_0000_0000_0000_0000 * 0x8_0000);
            assert(part * pow2(s as nat) >= pow2(s as nat)) by (nonlinear_arith)
                requires
                    part >= 1,
                    pow2(s as nat) >= 0,
            ;
            assert(false);
        }
    }
    let k: u32 = (-e) as u32;
    if whole < 0x100_0000_0000 {
        let power: u128 = power_of_two(k);
        proof {
            if k < 83 {
                lemma_pow2_strictly_increases(k as nat, 83);
            }
            lemma_pow2_adds(64, 19);
            assert(pow2(83) == 0x1_0000_0000_0000_0000 * 0x8_0000);
            assert(whole * power <= 0x100_0000_0000 * (0x1_0000_0000_0000_0000 * 0x8_0000) && whole
                * power >= 0) by (nonlinear_arith)
                requires
                    0 <= whole <= 0x100_0000_0000,
                    0 <= power <= 0x1_0000_0000_0000_0000 * 0x8_0000,
            ;
        }
        return nearest_dyadic(whole * power + m as u128, k);
    }
    let t: u32 = k - 13;
    let power: u128 = power_of_two(t);
    let high: u128 = m as u128 / power;
    let rest: u128 = m as u128 % power;
    let any: u128 = if rest > 0 {
        1
    } else {
        0
    };
    proof {
        assert(high <= m) by (nonlinear_arith)
            requires
                high == m as u128 / power,
                power > 0,
                m >= 0,
        ;
        let a = (whole * 0x2000 + high) as nat;
        lemma_fundamental_div_mod(m as int, power as int);
        lemma_pow2_adds(t as nat, 13);
        assert(pow2(13) == 0x2000 && pow2(14) == 0x4000);
        assert(whole * pow2(k as nat) + m == a * power + rest) by (nonlinear_arith)
            requires
                pow2(k as nat) == power * 0x2000,
                m == power * high + rest,
                a == whole * 0x2000 + high,
        ;
        lemma_sticky_double(a, rest as nat, t as nat);
    }
    nearest_dyadic(whole * 0x4000 + 2 * high + any, 14)
}

/// Scales a span by a factor.
pub fn scale_nanos(nanos: u128, factor_m: u64, factor_e: i32) -> (result: Option<u128>)
    requires
        nanos <= MAX_NANOS,
        factor_m <= MANTISSA_HIGH,
        -1100 <= factor_e <= 1000,
    ensures
        ({
            let wanted = scaled_nanos(nanos as nat, (factor_m as nat, factor_e as int));
            &&& result is Some <==> wanted is Some
            &&& result matches Some(value) ==> wanted == Some(value as nat) && value <= MAX_NANOS
        }),
{
    let (m, e) = to_span_seconds(nanos);
    proof {
        lemma2_to64();
        assert(pow2(0) == 1);
        assert(m * factor_m <= 0x20_0000_0000_0000 * 0x20_0000_0000_0000 && m * factor_m >= 0)
            by (nonlinear_arith)
            requires
                0 <= m <= 0x20_0000_0000_0000,
                0 <= factor_m <= 0x20_0000_0000_0000,
        ;
    }
    let (digits, scale) = nearest_dyadic(m as u128 * factor_m as u128, 0);
    let total: i32 = scale + e + factor_e;
    if digits == 0 || total > 971 || (total == 971 && digits as u128 >= MANTISSA_HIGH) {
        return Some(0);
    }
    dyadic_to_nanos(digits, total)
}

/// The nearest whole number, and of two the larger, held at a limit.
pub open spec fn nearest_whole(number: (nat, int), limit: nat) -> nat {
    let whole = if number.1 >= 0 {
        number.0 * pow2(number.1 as nat)
    } else {
        (2 * number.0 / pow2((-number.1) as nat) + 1) / 2
    };
    if whole > limit {
        limit
    } else {
        whole
    }
}

/// A whole number times a factor, as a whole number, held at a limit.
pub open spec fn scaled_whole(n: nat, factor: (nat, int), limit: nat) -> nat {
    let product = double_product((n, 0), factor);
    if is_beyond(product) {
        limit
    } else {
        nearest_whole(product, limit)
    }
}

/// Takes a number to the nearest whole number.
fn to_nearest_whole(m: u64, e: i32, limit: u32) -> (result: u32)
    requires
        m <= MANTISSA_HIGH,
    ensures
        result == nearest_whole((m as nat, e as int), limit as nat),
{
    if m == 0 {
        proof {
            if e >= 0 {
                assert(0 * pow2(e as nat) == 0) by (nonlinear_arith);
            } else {
                lemma_pow2_pos((-e) as nat);
                assert(0nat / pow2((-e) as nat) == 0) by (nonlinear_arith)
                    requires
                        pow2((-e) as nat) > 0,
                ;
            }
        }
        return 0;
    }
    if e >= 0 {
        if e > 32 {
            proof {
                lemma2_to64();
                lemma_pow2_strictly_increases(32, e as nat);
                assert(m * pow2(e as nat) > limit) by (nonlinear_arith)
                    requires
                        m >= 1,
                        pow2(e as nat) > 0x1_0000_0000,
                        limit <= 0xffff_ffff,
                ;
            }
            return limit;
        }
        let power: u128 = power_of_two(e as u32);
        proof {
            lemma2_to64();
            if e < 32 {
                lemma_pow2_strictly_increases(e as nat, 32);
            }
            assert(m * power <= 0x20_0000_0000_0000 * 0x1_0000_0000 && m * power >= 0)
                by (nonlinear_arith)
                requires
                    0 <= m <= 0x20_0000_0000_0000,
                    0 <= power <= 0x1_0000_0000,
            ;
        }
        let whole: u128 = m as u128 * power;
        if whole > limit as u128 {
            limit
        } else {
            whole as u32
        }
    } else if e < -64 {
        proof {
            lemma2_to64();
            lemma_pow2_strictly_increases(64, (-e) as nat);
            assert(2 * m as nat / pow2((-e) as nat) == 0) by (nonlinear_arith)
                requires
                    0 <= 2 * m < pow2((-e) as nat),
            ;
        }
        0
    } else {
        let power: u128 = power_of_two((-e) as u32);
        let twice: u128 = 2 * m as u128 / power;
        proof {
            assert((2 * m) as int / power as int <= 2 * m) by (nonlinear_arith)
                requires
                    power > 0,
                    m >= 0,
            ;
        }
        let whole: u128 = (twice + 1) / 2;
        if whole > limit as u128 {
            limit
        } else {
            whole as u32
        }
    }
}

/// Scales a whole number by a factor.
pub fn scale_whole(n: u32, factor_m: u64, factor_e: i32, limit: u32) -> (result: u32)
    requires
        factor_m <= MANTISSA_HIGH,
        -1100 <= factor_e <= 1000,
    ensures
        result == scaled_whole(n as nat, (factor_m as nat, factor_e as int), limit as nat),
{
    proof {
        lemma2_to64();
        assert(pow2(0) == 1);
        assert(n * factor_m <= 0x1_0000_0000 * 0x20_0000_0000_0000 && n * factor_m >= 0)
            by (nonlinear_arith)
            requires
                0 <= n <= 0x1_0000_0000,
                0 <= factor_m <= 0x20_0000_0000_0000,
        ;
    }
    let (digits, scale) = nearest_dyadic(n as u128 * factor_m as u128, 0);
    let total: i32 = scale + factor_e;
    if total > 971 || (total == 971 && digits as u128 >= MANTISSA_HIGH) {
        return limit;
    }
    to_nearest_whole(digits, total, limit)
}

/// No time stays none, whatever the factor.
pub proof fn lemma_scaled_nothing(factor: (nat, int))
    ensures
        scaled_nanos(0, factor) == Some(0nat),
{
    assert(span_seconds(0) == (0nat, 0int));
    assert(0 * factor.0 == 0) by (nonlinear_arith);
}

/// The time of one of so many turns in a second.
pub open spec fn period_nanos(rate: (nat, int)) -> Option<nat> {
    let (m, e) = nearest_double(1, rate.0);
    dyadic_nanos(m, e - rate.1)
}

/// The time of one of so many turns in a second.
pub fn period_to_nanos(rate_m: u64, rate_e: i32) -> (result: Option<u128>)
    requires
        0 < rate_m <= MANTISSA_HIGH,
        -1100 <= rate_e <= 1000,
    ensures
        ({
            let wanted = period_nanos((rate_m as nat, rate_e as int));
            &&& result is Some <==> wanted is Some
            &&& result matches Some(value) ==> wanted == Some(value as nat) && value <= MAX_NANOS
        }),
{
    let (m, e) = nearest_of(1, rate_m as u128);
    dyadic_to_nanos(m, e - rate_e)
}

/// A whole number with few digits, times a power of two, is a double.
proof fn lemma_short_is_exact(v: nat, shift: nat) -> (fill: nat)
    requires
        0 < v < 0x1_0000_0000,
    ensures
        21 <= fill <= 52,
        MANTISSA_LOW <= v * pow2(fill) < MANTISSA_HIGH,
        nearest_double((v * pow2(shift)) as nat, 1) == ((v * pow2(fill)) as nat, shift - fill),
{
    let n = lemma_length(v);
    lemma2_to64();
    lemma2_to64_rest();
    if n > 32 {
        if n > 33 {
            lemma_pow2_strictly_increases(32, (n - 1) as nat);
        }
        assert(false);
    }
    let fill = (53 - n) as nat;
    lemma_pow2_pos(fill);
    lemma_pow2_pos(shift);
    lemma_pow2_adds((n - 1) as nat, fill);
    lemma_pow2_adds(n, fill);
    assert(MANTISSA_LOW <= v * pow2(fill) < MANTISSA_HIGH) by (nonlinear_arith)
        requires
            pow2((n - 1) as nat) <= v < pow2(n),
            pow2((n - 1) as nat) * pow2(fill) == 0x10_0000_0000_0000,
            pow2(n) * pow2(fill) == 0x20_0000_0000_0000,
            pow2(fill) > 0,
    ;
    let p = (v * pow2(shift)) as nat;
    assert(v * pow2(shift) > 0) by (nonlinear_arith)
        requires
            v > 0,
            pow2(shift) > 0,
    ;
    if shift <= fill {
        let r = (fill - shift) as nat;
        lemma_pow2_adds(shift, r);
        assert(p * pow2(r) == v * pow2(fill)) by (nonlinear_arith)
            requires
                p == v * pow2(shift),
                pow2(fill) == pow2(shift) * pow2(r),
        ;
        lemma_dyadic_exact(p, 0, r);
    } else {
        let r = (shift - fill) as nat;
        lemma_pow2_adds(fill, r);
        lemma_pow2_pos(r);
        let whole = (v * pow2(fill)) as nat;
        assert(p == whole * pow2(r)) by (nonlinear_arith)
            requires
                p == v * pow2(shift),
                whole == v * pow2(fill),
                pow2(shift) == pow2(fill) * pow2(r),
        ;
        assert(MANTISSA_LOW * pow2(r) <= p < MANTISSA_HIGH * pow2(r)) by (nonlinear_arith)
            requires
                p == whole * pow2(r),
                MANTISSA_LOW <= whole < MANTISSA_HIGH,
                pow2(r) > 0,
        ;
        lemma_dyadic_scale(p, 0, r, -(r as int));
        lemma_fundamental_div_mod_converse(p as int, pow2(r) as int, whole as int, 0);
    }
    fill
}

/// Whole seconds times a whole factor are that many seconds.
pub proof fn law_whole_seconds_scale(seconds: nat, times: nat, factor: (nat, int))
    requires
        times > 0,
        factor.1 <= 0,
        factor.0 == times * pow2((-factor.1) as nat),
        seconds * times < 0x1_0000_0000,
    ensures
        scaled_nanos(seconds * 1_000_000_000, factor) == Some(
            (seconds * times * 1_000_000_000) as nat,
        ),
{
    let nanos = seconds * 1_000_000_000;
    assert(nanos / 1_000_000_000 == seconds && nanos % 1_000_000_000 == 0);
    assert(seconds * times >= seconds) by (nonlinear_arith)
        requires
            times >= 1,
            seconds >= 0,
    ;
    if seconds == 0 {
        lemma_scaled_nothing(factor);
        assert(seconds * times == 0) by (nonlinear_arith)
            requires
                seconds == 0,
        ;
    } else {
        lemma2_to64();
        let v = (seconds * times) as nat;
        let r = lemma_short_is_exact(seconds, 0);
        assert(seconds * pow2(0) == seconds) by (nonlinear_arith)
            requires
                pow2(0) == 1,
        ;
        let k = (-factor.1) as nat;
        lemma_pow2_adds(r, k);
        let fill = lemma_short_is_exact(v, r + k);
        assert((seconds * pow2(r)) * factor.0 == v * pow2(r + k)) by (nonlinear_arith)
            requires
                factor.0 == times * pow2(k),
                v == seconds * times,
                pow2(r + k) == pow2(r) * pow2(k),
        ;
        let span = span_seconds(nanos);
        assert(span == ((seconds * pow2(r)) as nat, -(r as int)));
        let product = double_product(span, factor);
        assert(product == ((v * pow2(fill)) as nat, -(fill as int)));
        lemma_pow2_pos(fill);
        assert((v * pow2(fill)) * 1_000_000_000 == (v * 1_000_000_000) * pow2(fill))
            by (nonlinear_arith);
        lemma_fundamental_div_mod_converse(
            ((v * pow2(fill)) * 1_000_000_000) as int,
            pow2(fill) as int,
            (v * 1_000_000_000) as int,
            0,
        );
    }
}

/// A fraction that is a whole number with few digits is that number.
proof fn lemma_whole_quotient(v: nat, q: nat) -> (fill: nat)
    requires
        0 < v < 0x1_0000_0000,
        q > 0,
    ensures
        nearest_double(v * q, q) == ((v * pow2(fill)) as nat, -(fill as int)),
        dyadic_nanos((v * pow2(fill)) as nat, -(fill as int)) == Some(v * 1_000_000_000),
{
    let fill = lemma_short_is_exact(v, 0);
    let p = v * q;
    lemma_pow2_pos(fill);
    let digits = (v * pow2(fill)) as nat;
    assert(p * pow2(fill) == digits * q) by (nonlinear_arith)
        requires
            p == v * q,
            digits == v * pow2(fill),
    ;
    assert(p > 0) by (nonlinear_arith)
        requires
            p == v * q,
            v > 0,
            q > 0,
    ;
    assert(MANTISSA_LOW * q <= digits * q < MANTISSA_HIGH * q) by (nonlinear_arith)
        requires
            MANTISSA_LOW <= digits < MANTISSA_HIGH,
            q > 0,
    ;
    assert(fills_mantissa(p, q, fill as int));
    let s = choose|s: int| #[trigger] fills_mantissa(p, q, s);
    lemma_scale_is_unique(p, q, s, fill as int);
    lemma_fundamental_div_mod_converse((digits * q) as int, q as int, digits as int, 0);
    assert((v * pow2(fill)) * 1_000_000_000 == (v * 1_000_000_000) * pow2(fill))
        by (nonlinear_arith);
    lemma_fundamental_div_mod_converse(
        (digits * 1_000_000_000) as int,
        pow2(fill) as int,
        (v * 1_000_000_000) as int,
        0,
    );
    fill
}

/// Frames for whole seconds take whole seconds.
pub proof fn law_frames_take_whole_seconds(seconds: nat, rate: nat)
    requires
        seconds < 0x1_0000_0000,
        rate > 0,
        seconds * rate < MANTISSA_HIGH,
    ensures
        quotient_nanos(seconds * rate, rate) == Some(seconds * 1_000_000_000),
{
    if seconds == 0 {
        assert(seconds * rate == 0) by (nonlinear_arith)
            requires
                seconds == 0,
        ;
        lemma2_to64();
        assert(0 * pow2(0) * 1_000_000_000 == 0) by (nonlinear_arith);
    } else {
        let fill = lemma_whole_quotient(seconds, rate);
    }
}

/// Ticks for whole seconds take whole seconds.
pub proof fn law_ticks_take_whole_seconds(ticks: nat, num: nat, den: nat, seconds: nat)
    requires
        seconds < 0x1_0000_0000,
        den > 0,
        ticks < MANTISSA_HIGH,
        ticks * num == seconds * den,
        seconds * den < MANTISSA_HIGH,
    ensures
        ticks_nanos(ticks, num, den) == Some(seconds * 1_000_000_000),
{
    if seconds == 0 {
        assert(seconds * den == 0) by (nonlinear_arith)
            requires
                seconds == 0,
        ;
        lemma2_to64();
        assert(0 * pow2(0) * 1_000_000_000 == 0) by (nonlinear_arith);
    } else {
        let fill = lemma_whole_quotient(seconds, den);
    }
}

/// A whole number that is scaled by another one is their product, as far as it is short
/// and within the limit.
pub proof fn law_whole_numbers_scale(n: nat, times: nat, factor: (nat, int), limit: nat)
    requires
        times > 0,
        factor.1 <= 0,
        factor.0 == times * pow2((-factor.1) as nat),
        n * times < 0x1_0000_0000,
        n * times <= limit,
    ensures
        scaled_whole(n, factor, limit) == n * times,
{
    let k = (-factor.1) as nat;
    let v = (n * times) as nat;
    let product = double_product((n, 0), factor);
    assert(n * factor.0 == v * pow2(k)) by (nonlinear_arith)
        requires
            factor.0 == times * pow2(k),
            v == n * times,
    ;
    if n == 0 {
        assert(v == 0) by (nonlinear_arith)
            requires
                v == n * times,
                n == 0,
        ;
        assert(v * pow2(k) == 0) by (nonlinear_arith)
            requires
                v == 0,
        ;
        assert(product == (0nat, factor.1));
        if k > 0 {
            lemma_pow2_pos(k);
            assert(0nat / pow2(k) == 0) by (nonlinear_arith)
                requires
                    pow2(k) > 0,
            ;
        } else {
            assert(0 * pow2(0) == 0);
        }
    } else {
        assert(v > 0) by (nonlinear_arith)
            requires
                v == n * times,
                n > 0,
                times > 0,
        ;
        let fill = lemma_short_is_exact(v, k);
        assert(product == ((v * pow2(fill)) as nat, -(fill as int)));
        lemma_pow2_pos(fill);
        assert(2 * (v * pow2(fill)) == (2 * v) * pow2(fill)) by (nonlinear_arith);
        lemma_fundamental_div_mod_converse(
            (2 * (v * pow2(fill))) as int,
            pow2(fill) as int,
            (2 * v) as int,
            0,
        );
    }
}

} // verus!
