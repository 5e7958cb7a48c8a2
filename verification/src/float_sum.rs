//! Sums of single-precision numbers, as bit patterns.
use crate::binary64::{power_of_two, round_half_even};
use crate::float_bits::{bit_length, nearest_single, to_nearest_single, Single};
use vstd::arithmetic::div_mod::lemma_fundamental_div_mod_converse;
use vstd::arithmetic::power2::{
    lemma2_to64, lemma_pow2_adds, lemma_pow2_pos, lemma_pow2_strictly_increases, lemma_pow2_unfold,
    pow2,
};
use vstd::prelude::*;

verus! {

/// The digits of a finite number with their sign, at a power of two that is not
/// above its own.
pub open spec fn digits_at(number: Single, e: int) -> int {
    let digits = number.mantissa() * pow2((number.scale() - e) as nat);
    if number.bits >= 0x8000_0000 {
        -digits
    } else {
        digits as int
    }
}

/// The smaller of two numbers.
pub open spec fn lower(a: int, b: int) -> int {
    if a < b {
        a
    } else {
        b
    }
}

/// The number nearest to digits with a sign at a power of two.
pub open spec fn nearest_signed(digits: int, e: int) -> Single {
    if digits < 0 {
        Single { bits: (0x8000_0000 + nearest_single((-digits) as nat, e)) as u32 }
    } else {
        Single { bits: nearest_single(digits as nat, e) as u32 }
    }
}

impl Single {
    /// The sum of two numbers, to the nearest.
    pub open spec fn sum(self, other: Single) -> Single {
        let e = lower(self.scale(), other.scale());
        let digits = digits_at(self, e) + digits_at(other, e);
        let both_negative = self.bits >= 0x8000_0000 && other.bits >= 0x8000_0000;
        if self.is_nan() || other.is_nan() {
            Single { bits: 0x7fc0_0000 }
        } else if !self.is_finite() {
            if !other.is_finite() && self.bits != other.bits {
                Single { bits: 0x7fc0_0000 }
            } else {
                self
            }
        } else if !other.is_finite() {
            other
        } else if digits == 0 {
            Single {
                bits: if both_negative {
                    0x8000_0000
                } else {
                    0
                },
            }
        } else {
            nearest_signed(digits, e)
        }
    }

    /// The number with the other sign.
    pub open spec fn opposite(self) -> Single {
        if self.bits >= 0x8000_0000 {
            Single { bits: (self.bits - 0x8000_0000) as u32 }
        } else {
            Single { bits: (self.bits + 0x8000_0000) as u32 }
        }
    }

    /// The number with the other sign.
    pub fn negated(self) -> (result: Single)
        ensures
            result == self.opposite(),
    {
        if self.bits >= 0x8000_0000 {
            Single { bits: self.bits - 0x8000_0000 }
        } else {
            Single { bits: self.bits + 0x8000_0000 }
        }
    }

    /// Adds two numbers.
    pub fn plus(self, other: Single) -> (result: Single)
        ensures
            result == self.sum(other),
    {
        let a: u32 = self.bits % 0x8000_0000;
        let b: u32 = other.bits % 0x8000_0000;
        if a > 0x7f80_0000 || b > 0x7f80_0000 {
            return Single { bits: 0x7fc0_0000 };
        }
        if a == 0x7f80_0000 {
            return if b == 0x7f80_0000 && self.bits != other.bits {
                Single { bits: 0x7fc0_0000 }
            } else {
                self
            };
        }
        if b == 0x7f80_0000 {
            return other;
        }
        let (_, d) = self.digits();
        let (_, e) = other.digits();
        if d >= e {
            add_ordered(self, other)
        } else {
            let result = add_ordered(other, self);
            assert(other.sum(self) == self.sum(other));
            result
        }
    }

    /// Subtracts a number.
    pub fn minus(self, other: Single) -> (result: Single)
        ensures
            result == self.sum(other.opposite()),
    {
        self.plus(other.negated())
    }
}

/// The number nearest to a whole number with a sign.
pub fn single_of_signed(n: i32) -> (result: Single)
    ensures
        result == nearest_signed(n as int, 0),
{
    if n < 0 {
        let magnitude: u64 = (-(n as i64)) as u64;
        Single { bits: 0x8000_0000 + to_nearest_single(magnitude, 0) }
    } else {
        Single { bits: to_nearest_single(n as u64, 0) }
    }
}

/// Adds two finite numbers, the first at no lower power of two.
fn add_ordered(large: Single, small: Single) -> (result: Single)
    requires
        large.is_finite(),
        small.is_finite(),
        large.scale() >= small.scale(),
    ensures
        result == large.sum(small),
{
    let (m, d) = large.digits();
    let (n, e) = small.digits();
    let gap: u32 = (d - e) as u32;
    proof {
        lemma2_to64();
        assert(pow2(0) == 1);
        assert(n * 1 == n) by (nonlinear_arith);
    }
    if gap > 27 {
        // The small one is less than a quarter of the last digit of the large one.
        assert(m >= 0x80_0000);
        proof {
            lemma_large_wins(large, small);
        }
        return large;
    }
    let power: u128 = power_of_two(gap);
    proof {
        if gap < 27 {
            lemma_pow2_strictly_increases(gap as nat, 27);
        }
        assert(m * power <= 0x100_0000 * 0x800_0000 && m * power >= 0) by (nonlinear_arith)
            requires
                0 <= m <= 0x100_0000,
                0 <= power <= 0x800_0000,
        ;
    }
    let up: i64 = (m as u128 * power) as i64;
    let first: i64 = if large.bits >= 0x8000_0000 {
        -up
    } else {
        up
    };
    let second: i64 = if small.bits >= 0x8000_0000 {
        -(n as i64)
    } else {
        n as i64
    };
    let digits: i64 = first + second;
    assert(digits == digits_at(large, e as int) + digits_at(small, e as int));
    if digits == 0 {
        return Single {
            bits: if large.bits >= 0x8000_0000 && small.bits >= 0x8000_0000 {
                0x8000_0000
            } else {
                0
            },
        };
    }
    if digits < 0 {
        Single { bits: 0x8000_0000 + to_nearest_single((-digits) as u64, e) }
    } else {
        Single { bits: to_nearest_single(digits as u64, e) }
    }
}

/// A number between two powers of two has so many digits.
proof fn lemma_bit_length(n: nat, k: nat)
    requires
        k >= 1,
        pow2((k - 1) as nat) <= n < pow2(k),
    ensures
        bit_length(n) == k,
    decreases k,
{
    lemma2_to64();
    if k == 1 {
        reveal_with_fuel(bit_length, 2);
    } else {
        lemma_pow2_unfold(k);
        lemma_pow2_unfold((k - 1) as nat);
        lemma_bit_length(n / 2, (k - 1) as nat);
    }
}

/// Rounding takes off less than half of a step above.
proof fn lemma_rounds_down(m: nat, step: nat, rest: nat)
    requires
        step > 0,
        2 * rest < step,
    ensures
        round_half_even(m * step + rest, step) == m,
{
    lemma_fundamental_div_mod_converse(
        (m * step + rest) as int,
        step as int,
        m as int,
        rest as int,
    );
}

/// Rounding fills up less than half of a step below.
proof fn lemma_rounds_up(m: nat, step: nat, rest: nat)
    requires
        step > 0,
        0 < rest,
        2 * rest < step,
        m >= 1,
    ensures
        m * step >= rest,
        round_half_even((m * step - rest) as nat, step) == m,
{
    assert(m * step >= step) by (nonlinear_arith)
        requires
            m >= 1,
            step > 0,
    ;
    assert((m - 1) * step + (step - rest) == m * step - rest) by (nonlinear_arith);
    lemma_fundamental_div_mod_converse(m * step - rest, step as int, m - 1, step - rest);
}

/// A number far above another one is their sum.
proof fn lemma_large_wins(large: Single, small: Single)
    requires
        large.is_finite(),
        small.is_finite(),
        large.scale() > small.scale() + 27,
    ensures
        large.sum(small) == large,
{
    let m = large.mantissa();
    let n = small.mantissa();
    let e = small.scale();
    let d = (large.scale() - e) as nat;
    let step = pow2(d);
    assert(0x80_0000 <= m < 0x100_0000);
    assert(n < 0x100_0000);
    lemma2_to64();
    lemma_pow2_strictly_increases(27, d);
    lemma_pow2_adds(23, d);
    lemma_pow2_adds(24, d);
    lemma_pow2_unfold(d);
    lemma_pow2_pos(d);
    assert(pow2(0) == 1);
    assert(n * 1 == n) by (nonlinear_arith);
    let total = m * step;
    assert(0x80_0000 * step <= total <= (0x100_0000 - 1) * step) by (nonlinear_arith)
        requires
            0x80_0000 <= m <= 0x100_0000 - 1,
            total == m * step,
            step > 0,
    ;
    assert((0x100_0000 - 1) * step + step == 0x100_0000 * step) by (nonlinear_arith);
    let same_sign = (large.bits >= 0x8000_0000) == (small.bits >= 0x8000_0000);
    let magnitude: nat = if same_sign {
        total + n
    } else {
        (total - n) as nat
    };
    // The pattern of the large number, without its sign.
    let pattern = (large.scale() + 149) * 0x80_0000 + m;
    assert(pattern == large.bits % 0x8000_0000);
    if same_sign || n == 0 {
        assert(magnitude == total + n || n == 0);
        lemma_bit_length((total + n) as nat, d + 24);
        lemma_rounds_down(m, step, n);
        assert(nearest_single((total + n) as nat, e) == pattern);
    } else if m > 0x80_0000 {
        assert(total >= 0x80_0000 * step + step) by (nonlinear_arith)
            requires
                m >= 0x80_0000 + 1,
                total == m * step,
                step > 0,
        ;
        lemma_bit_length((total - n) as nat, d + 24);
        lemma_rounds_up(m, step, n);
        assert(nearest_single((total - n) as nat, e) == pattern);
    } else {
        // One digit less before the number below a power of two.
        let half = pow2((d - 1) as nat);
        assert(step == 2 * half);
        lemma_pow2_adds(22, d);
        lemma_pow2_adds(24, (d - 1) as nat);
        assert(total == 0x100_0000 * half) by (nonlinear_arith)
            requires
                total == 0x80_0000 * step,
                step == 2 * half,
        ;
        assert(total - n >= 0x40_0000 * step) by (nonlinear_arith)
            requires
                total == 0x80_0000 * step,
                n < 0x100_0000,
                step > 0x800_0000,
        ;
        lemma_bit_length((total - n) as nat, d + 23);
        lemma_pow2_unfold(27);
        lemma_rounds_up(0x100_0000, half, n);
        assert(nearest_single((total - n) as nat, e) == pattern);
    }
    let digits = digits_at(large, e) + digits_at(small, e);
    assert(digits_at(large, e) == (if large.bits >= 0x8000_0000 {
        -(total as int)
    } else {
        total as int
    }));
    if large.bits >= 0x8000_0000 {
        assert(-digits == magnitude);
    } else {
        assert(digits == magnitude);
    }
}

/// The order of two numbers does not matter to their sum.
pub proof fn law_sum_commutes(a: Single, b: Single)
    requires
        a.is_finite(),
        b.is_finite(),
    ensures
        a.sum(b) == b.sum(a),
{
}

/// Nothing is added by zero.
pub proof fn law_zero_adds_nothing(a: Single)
    requires
        a.is_finite(),
        a.mantissa() > 0,
    ensures
        a.sum(Single { bits: 0 }) == a,
{
    let zero = Single { bits: 0 };
    lemma2_to64();
    let e = -149;
    let d = (a.scale() - e) as nat;
    let m = a.mantissa();
    let step = pow2(d);
    lemma_pow2_pos(d);
    assert(digits_at(zero, e) == 0) by {
        assert(0 * pow2(0) == 0) by (nonlinear_arith);
    }
    assert(m * step > 0) by (nonlinear_arith)
        requires
            m > 0,
            step > 0,
    ;
    let pattern = a.bits % 0x8000_0000;
    if d > 0 {
        lemma_pow2_adds(23, d);
        lemma_pow2_adds(24, d);
        assert(0x80_0000 * step <= m * step < 0x100_0000 * step) by (nonlinear_arith)
            requires
                0x80_0000 <= m < 0x100_0000,
                step > 0,
        ;
        lemma_bit_length((m * step) as nat, d + 24);
        lemma_rounds_down(m, step, 0);
        assert(nearest_single((m * step) as nat, e) == pattern);
    } else {
        assert(step == 1);
        assert(m * 1 == m) by (nonlinear_arith);
        lemma_at_most_24_digits(m);
        lemma_rounds_down(m, 1, 0);
        assert(nearest_single(m, e) == pattern);
    }
}

proof fn lemma_at_most_24_digits(m: nat)
    requires
        m < 0x100_0000,
    ensures
        bit_length(m) <= 24,
{
    reveal_with_fuel(bit_length, 25);
}

} // verus!
