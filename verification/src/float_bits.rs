//! Floating-point numbers as their IEEE 754 bit patterns.
//!
//! Sizes, opacities and factors are compared, limited and converted here
//! without any floating-point arithmetic.
use crate::binary64::{
    divide_half_even, dyadic_nanos, dyadic_to_nanos, fills_mantissa, lemma_pow2_at_most_96,
    lemma_scale_is_unique, lemma_scale_up_exists, nearest_double, power_of_two, round_half_even,
    span_seconds, to_span_seconds,
};
use crate::text::{all_digits, digits_value, find_spec};
use crate::time::{Duration, MAX_NANOS};
use vstd::arithmetic::div_mod::{lemma_fundamental_div_mod, lemma_fundamental_div_mod_converse};
use vstd::arithmetic::power::{lemma_pow_adds, lemma_pow_positive, pow};
use vstd::arithmetic::power2::{
    lemma2_to64, lemma2_to64_rest, lemma_pow2_adds, lemma_pow2_pos, lemma_pow2_strictly_increases, lemma_pow2_unfold,
    pow2,
};
use vstd::prelude::*;

verus! {

// ---------------------------------------------------------------------------
// Double precision
// ---------------------------------------------------------------------------

/// A double-precision number.
#[derive(Debug, Clone, Copy, PartialEq, Eq, Hash, Structural)]
pub struct Double {
    pub bits: u64,
}

impl Double {
    /// Whether the sign bit is set.
    pub open spec fn has_sign(self) -> bool {
        self.bits >= 0x8000_0000_0000_0000
    }

    /// The exponent field.
    pub open spec fn exponent_field(self) -> nat {
        (self.bits / 0x10_0000_0000_0000 % 0x800) as nat
    }

    /// The fraction field.
    pub open spec fn fraction(self) -> nat {
        (self.bits % 0x10_0000_0000_0000) as nat
    }

    /// Whether the number is neither infinite nor a NaN.
    pub open spec fn is_finite(self) -> bool {
        self.exponent_field() < 0x7ff
    }

    /// Whether the pattern stands for no number.
    pub open spec fn is_nan(self) -> bool {
        self.exponent_field() == 0x7ff && self.fraction() != 0
    }

    /// The digits of a finite number, as a whole number.
    pub open spec fn mantissa(self) -> nat {
        if self.exponent_field() == 0 {
            self.fraction()
        } else {
            self.fraction() + 0x10_0000_0000_0000
        }
    }

    /// The power of two that scales the digits of a finite number.
    pub open spec fn scale(self) -> int {
        if self.exponent_field() == 0 {
            -1074
        } else {
            self.exponent_field() - 1075
        }
    }

    /// Whether the number is less than zero.
    pub open spec fn is_negative(self) -> bool {
        self.has_sign() && !self.is_nan() && !(self.exponent_field() == 0 && self.fraction() == 0)
    }

    /// The nearest time in nanoseconds, if the number is one of seconds that a
    /// span can hold.
    pub open spec fn nanos(self) -> Option<nat> {
        if self.is_negative() || !self.is_finite() {
            None
        } else {
            dyadic_nanos(self.mantissa(), self.scale())
        }
    }

    /// The nearest time in nanoseconds, where what is negative or no number
    /// counts as zero.
    pub open spec fn nanos_from_zero(self) -> Option<nat> {
        if self.is_negative() || self.is_nan() {
            Some(0)
        } else {
            self.nanos()
        }
    }

    /// The whole part, where what is negative or no number counts as zero and
    /// what is too large as the limit.
    pub open spec fn whole_part(self, limit: nat) -> nat {
        if self.is_negative() || self.is_nan() {
            0
        } else if !self.is_finite() {
            limit
        } else {
            let whole = if self.scale() >= 0 {
                self.mantissa() * pow2(self.scale() as nat)
            } else {
                self.mantissa() / pow2((-self.scale()) as nat)
            };
            if whole > limit {
                limit
            } else {
                whole
            }
        }
    }

    /// The nearest number of single precision.
    pub open spec fn narrowed(self) -> Single {
        let sign: nat = if self.has_sign() {
            0x8000_0000
        } else {
            0
        };
        if self.is_nan() {
            Single { bits: (sign + 0x7fc0_0000) as u32 }
        } else if !self.is_finite() {
            Single { bits: (sign + 0x7f80_0000) as u32 }
        } else {
            let quantum = if self.scale() + 29 < -149 {
                -149
            } else {
                self.scale() + 29
            };
            let digits = round_half_even(self.mantissa(), pow2((quantum - self.scale()) as nat));
            let pattern = (quantum + 149) * 0x80_0000 + digits;
            Single {
                bits: (sign + if pattern > 0x7f80_0000 {
                    0x7f80_0000
                } else {
                    pattern
                }) as u32,
            }
        }
    }

    /// The fields of the pattern: sign, exponent and fraction.
    fn fields(self) -> (result: (bool, u64, u64))
        ensures
            result.0 == self.has_sign(),
            result.1 == self.exponent_field(),
            result.2 == self.fraction(),
            result.1 < 0x800,
            result.2 < 0x10_0000_0000_0000,
    {
        (
            self.bits >= 0x8000_0000_0000_0000,
            self.bits / 0x10_0000_0000_0000 % 0x800,
            self.bits % 0x10_0000_0000_0000,
        )
    }

    /// Whether the number is finite and greater than zero.
    pub open spec fn is_positive(self) -> bool {
        self.is_finite() && !self.has_sign() && self.mantissa() > 0
    }

    /// Whether the number is finite and greater than zero.
    pub fn check_positive(self) -> (result: bool)
        ensures
            result == self.is_positive(),
    {
        let (sign, exponent, fraction) = self.fields();
        exponent < 0x7ff && !sign && !(exponent == 0 && fraction == 0)
    }

    /// The digits and their scale.
    pub fn digits(self) -> (result: (u64, i32))
        requires
            self.is_finite(),
        ensures
            result.0 == self.mantissa(),
            result.1 == self.scale(),
            result.0 < 0x20_0000_0000_0000,
            -1074 <= result.1 <= 971,
    {
        let (_, exponent, fraction) = self.fields();
        if exponent == 0 {
            (fraction, -1074)
        } else {
            (fraction + 0x10_0000_0000_0000, exponent as i32 - 1075)
        }
    }

    /// A span in seconds.
    pub fn from_span(span: Duration) -> (result: Self)
        ensures
            encodes(result.bits, span_seconds(span@)),
    {
        let (m, e) = to_span_seconds(span.as_nanos());
        Double { bits: double_of_digits(m, e) }
    }

    /// Takes a number of seconds to the nearest nanosecond, if a span can hold
    /// it.
    pub fn to_span(self) -> (result: Option<Duration>)
        ensures
            result is Some <==> self.nanos() is Some,
            result matches Some(span) ==> self.nanos() == Some(span@),
    {
        let (sign, exponent, fraction) = self.fields();
        if exponent == 0x7ff || (sign && !(exponent == 0 && fraction == 0)) {
            return None;
        }
        let (m, e) = self.digits();
        match dyadic_to_nanos(m, e) {
            Some(nanos) => Duration::try_from_nanos(nanos),
            None => None,
        }
    }

    /// Takes a number of seconds to the nearest nanosecond, where what is
    /// negative or no number counts as zero.
    pub fn to_span_from_zero(self) -> (result: Option<Duration>)
        ensures
            result is Some <==> self.nanos_from_zero() is Some,
            result matches Some(span) ==> self.nanos_from_zero() == Some(span@),
    {
        let (sign, exponent, fraction) = self.fields();
        if exponent == 0x7ff && fraction != 0 {
            return Some(Duration::zero());
        }
        if sign && !(exponent == 0 && fraction == 0) {
            return Some(Duration::zero());
        }
        self.to_span()
    }

    /// The whole part, held within the limits of a 64-bit number.
    pub fn to_whole(self, limit: u64) -> (result: u64)
        ensures
            result == self.whole_part(limit as nat),
    {
        let (sign, exponent, fraction) = self.fields();
        if exponent == 0x7ff && fraction != 0 {
            return 0;
        }
        if sign && !(exponent == 0 && fraction == 0) {
            return 0;
        }
        if exponent == 0x7ff {
            return limit;
        }
        let (m, e) = self.digits();
        if e >= 0 {
            // The digits of a scaled-up number are all taken.
            assert(m >= 0x10_0000_0000_0000);
            if e > 11 {
                proof {
                    lemma2_to64();
                    if e > 12 {
                        lemma_pow2_strictly_increases(12, e as nat);
                    }
                    assert(m * pow2(e as nat) > limit) by (nonlinear_arith)
                        requires
                            m >= 0x10_0000_0000_0000,
                            pow2(e as nat) >= 0x1000,
                            limit <= 0xffff_ffff_ffff_ffff,
                    ;
                }
                return limit;
            }
            let power: u128 = power_of_two(e as u32);
            proof {
                lemma2_to64();
                if e < 11 {
                    lemma_pow2_strictly_increases(e as nat, 11);
                }
                assert(m * power <= 0x20_0000_0000_0000 * 0x800) by (nonlinear_arith)
                    requires
                        0 <= m <= 0x20_0000_0000_0000,
                        0 <= power <= 0x800,
                ;
            }
            let whole: u128 = m as u128 * power;
            if whole > limit as u128 {
                limit
            } else {
                whole as u64
            }
        } else if e < -64 {
            proof {
                lemma2_to64();
                lemma_pow2_strictly_increases(64, (-e) as nat);
                assert(m as nat / pow2((-e) as nat) == 0) by (nonlinear_arith)
                    requires
                        0 <= m < pow2((-e) as nat),
                ;
            }
            0
        } else {
            let power: u128 = power_of_two((-e) as u32);
            let whole: u128 = m as u128 / power;
            proof {
                assert(m as u128 / power <= m) by (nonlinear_arith)
                    requires
                        power > 0,
                        m >= 0,
                ;
            }
            if whole > limit as u128 {
                limit
            } else {
                whole as u64
            }
        }
    }

    /// Takes the number to the nearest one of single precision.
    pub fn narrow(self) -> (result: Single)
        ensures
            result == self.narrowed(),
    {
        let (sign, exponent, fraction) = self.fields();
        let sign_bits: u32 = if sign {
            0x8000_0000
        } else {
            0
        };
        if exponent == 0x7ff {
            return if fraction != 0 {
                Single { bits: sign_bits + 0x7fc0_0000 }
            } else {
                Single { bits: sign_bits + 0x7f80_0000 }
            };
        }
        let (m, e) = self.digits();
        let quantum: i32 = if e + 29 < -149 {
            -149
        } else {
            e + 29
        };
        let shift: i32 = quantum - e;
        let digits: u128;
        if shift > 96 {
            digits = 0;
            proof {
                lemma_pow2_at_most_96(96);
                lemma2_to64();
                lemma_pow2_adds(64, 32);
                lemma_pow2_strictly_increases(96, shift as nat);
                let q = pow2(shift as nat);
                assert(m + m < q);
                assert(m as nat / q == 0 && m as nat % q == m) by (nonlinear_arith)
                    requires
                        0 <= m < q,
                ;
            }
        } else {
            let power: u128 = power_of_two(shift as u32);
            digits = divide_half_even(m as u128, power);
            proof {
                lemma2_to64();
                if shift > 29 {
                    lemma_pow2_strictly_increases(29, shift as nat);
                }
                assert(m as nat / power as nat <= 0x100_0000) by (nonlinear_arith)
                    requires
                        0 <= m <= 0x20_0000_0000_0000,
                        power >= 0x2000_0000,
                ;
            }
        }
        let pattern: u128 = (quantum + 149) as u128 * 0x80_0000 + digits;
        let held: u32 = if pattern > 0x7f80_0000 {
            0x7f80_0000
        } else {
            pattern as u32
        };
        Single { bits: sign_bits + held }
    }
}

// ---------------------------------------------------------------------------
// Single precision
// ---------------------------------------------------------------------------

/// A single-precision number.
#[derive(Debug, Clone, Copy, PartialEq, Eq, Hash, Structural)]
pub struct Single {
    pub bits: u32,
}

/// The number of binary digits of a whole number.
pub open spec fn bit_length(m: nat) -> nat
    decreases m,
{
    if m == 0 {
        0
    } else {
        1 + bit_length(m / 2)
    }
}

/// Counts the binary digits of a whole number.
fn count_bits(m: u64) -> (result: u32)
    requires
        m <= 0x10_0000_0000_0000,
    ensures
        result == bit_length(m as nat),
        result <= 53,
        m >= 1 ==> pow2((result - 1) as nat) <= m,
        m >= 1 ==> result >= 1,
        m < pow2(result as nat),
{
    let mut rest: u64 = m;
    let mut count: u32 = 0;
    let ghost mut power: nat = 1;
    proof {
        lemma2_to64();
    }
    while rest > 0
        invariant
            bit_length(m as nat) == count + bit_length(rest as nat),
            power == pow2(count as nat),
            rest * power <= m < (rest + 1) * power,
            m <= 0x10_0000_0000_0000,
            count <= 53,
            rest == 0 ==> count >= 1 ==> pow2((count - 1) as nat) <= m,
            rest == 0 && m >= 1 ==> count >= 1,
        decreases rest,
    {
        proof {
            lemma_pow2_unfold((count + 1) as nat);
            lemma_pow2_pos(count as nat);
            lemma2_to64();
            let half = rest / 2;
            let double = pow2((count + 1) as nat);
            assert(half * double <= m < (half + 1) * double) by (nonlinear_arith)
                requires
                    rest * power <= m < (rest + 1) * power,
                    double == 2 * power,
                    2 * half <= rest <= 2 * half + 1,
                    power > 0,
            ;
            assert(power <= m) by (nonlinear_arith)
                requires
                    rest * power <= m,
                    rest >= 1,
                    power > 0,
            ;
            if count >= 53 {
                lemma2_to64_rest();
                assert(pow2(53) == 0x20_0000_0000_0000);
                assert(false);
            }
            power = double;
        }
        rest = rest / 2;
        count += 1;
    }
    assert(m < pow2(count as nat)) by (nonlinear_arith)
        requires
            m < (rest + 1) * power,
            rest == 0,
            power == pow2(count as nat),
    ;
    count
}

/// The pattern of the single-precision number nearest to whole digits at a
/// power of two.
pub open spec fn nearest_single(m: nat, e: int) -> nat {
    let quantum = if e + bit_length(m) - 24 < -149 {
        -149
    } else {
        e + bit_length(m) - 24
    };
    let digits = if quantum >= e {
        round_half_even(m, pow2((quantum - e) as nat))
    } else {
        m * pow2((e - quantum) as nat)
    };
    let pattern = (quantum + 149) * 0x80_0000 + digits;
    if m == 0 {
        0
    } else if pattern > 0x7f80_0000 {
        0x7f80_0000
    } else {
        pattern as nat
    }
}

/// Takes whole digits at a power of two to the nearest single-precision number.
pub(crate) fn to_nearest_single(m: u64, e: i32) -> (result: u32)
    requires
        m <= 0x10_0000_0000_0000,
        -298 <= e <= 208,
    ensures
        result == nearest_single(m as nat, e as int),
        result <= 0x7f80_0000,
{
    if m == 0 {
        return 0;
    }
    let length: i32 = count_bits(m) as i32;
    let quantum: i32 = if e + length - 24 < -149 {
        -149
    } else {
        e + length - 24
    };
    let digits: u128;
    if quantum >= e {
        let shift: i32 = quantum - e;
        if shift > 96 {
            digits = 0;
            proof {
                lemma_pow2_at_most_96(96);
                lemma2_to64();
                lemma_pow2_adds(64, 32);
                lemma_pow2_strictly_increases(96, shift as nat);
                let q = pow2(shift as nat);
                assert(m + m < q);
                assert(m as nat / q == 0 && m as nat % q == m) by (nonlinear_arith)
                    requires
                        0 <= m < q,
                ;
            }
        } else {
            let power: u128 = power_of_two(shift as u32);
            digits = divide_half_even(m as u128, power);
            proof {
                assert(m as nat / power as nat <= m) by (nonlinear_arith)
                    requires
                        power >= 1,
                        m >= 0,
                ;
            }
        }
    } else {
        let shift: i32 = e - quantum;
        let power: u128 = power_of_two(shift as u32);
        proof {
            lemma2_to64();
            if shift < 24 {
                lemma_pow2_strictly_increases(shift as nat, 24);
            }
            assert(m * power <= 0x10_0000_0000_0000 * 0x100_0000 && m * power >= 0) by (nonlinear_arith)
                requires
                    0 <= m <= 0x10_0000_0000_0000,
                    0 <= power <= 0x100_0000,
            ;
        }
        digits = m as u128 * power;
    }
    let pattern: u128 = (quantum + 149) as u128 * 0x80_0000 + digits;
    if pattern > 0x7f80_0000 {
        0x7f80_0000
    } else {
        pattern as u32
    }
}

/// The power of two at or below a fraction, found from the numbers of digits.
pub open spec fn ratio_length(p: nat, q: nat) -> int {
    let d = bit_length(p) - bit_length(q);
    let reached = if d >= 0 {
        p >= q * pow2(d as nat)
    } else {
        p * pow2((-d) as nat) >= q
    };
    if reached {
        d
    } else {
        d - 1
    }
}

/// The pattern of the single-precision number nearest to a fraction at a power
/// of two.
pub open spec fn nearest_ratio(p: nat, q: nat, e: int) -> nat {
    let quantum = if e + ratio_length(p, q) - 23 < -149 {
        -149
    } else {
        e + ratio_length(p, q) - 23
    };
    let digits = if quantum >= e {
        round_half_even(p, q * pow2((quantum - e) as nat))
    } else {
        round_half_even(p * pow2((e - quantum) as nat), q)
    };
    let pattern = (quantum + 149) * 0x80_0000 + digits;
    if p == 0 {
        0
    } else if pattern > 0x7f80_0000 {
        0x7f80_0000
    } else {
        pattern as nat
    }
}

/// Takes a fraction at a power of two to the nearest single-precision number.
fn to_nearest_ratio(p: u64, q: u64, e: i32) -> (result: u32)
    requires
        p < 0x100_0000,
        0 < q < 0x100_0000,
        -253 <= e <= 253,
    ensures
        result == nearest_ratio(p as nat, q as nat, e as int),
        result <= 0x7f80_0000,
{
    if p == 0 {
        return 0;
    }
    let d: i32 = count_bits(p) as i32 - count_bits(q) as i32;
    proof {
        lemma_bits_at_most_24(p as nat);
        lemma_bits_at_most_24(q as nat);
        lemma2_to64();
        lemma2_to64_rest();
    }
    let reached: bool = if d >= 0 {
        let power: u128 = power_of_two(d as u32);
        proof {
            lemma_pow2_at_most(d as nat, 24);
            assert(q * power <= 0x100_0000 * 0x100_0000 && q * power >= 0) by (nonlinear_arith)
                requires
                    0 <= q <= 0x100_0000,
                    0 <= power <= 0x100_0000,
            ;
        }
        p as u128 >= q as u128 * power
    } else {
        let power: u128 = power_of_two((-d) as u32);
        proof {
            lemma_pow2_at_most((-d) as nat, 24);
            assert(p * power <= 0x100_0000 * 0x100_0000 && p * power >= 0) by (nonlinear_arith)
                requires
                    0 <= p <= 0x100_0000,
                    0 <= power <= 0x100_0000,
            ;
        }
        p as u128 * power >= q as u128
    };
    let length: i32 = if reached {
        d
    } else {
        d - 1
    };
    let quantum: i32 = if e + length - 23 < -149 {
        -149
    } else {
        e + length - 23
    };
    let digits: u128;
    if quantum >= e {
        let shift: i32 = quantum - e;
        if shift > 64 {
            digits = 0;
            proof {
                lemma_pow2_strictly_increases(64, shift as nat);
                let b = q * pow2(shift as nat);
                assert(p + p < b) by (nonlinear_arith)
                    requires
                        b == q * pow2(shift as nat),
                        q >= 1,
                        p < 0x100_0000,
                        pow2(shift as nat) > 0x1_0000_0000_0000_0000,
                ;
                assert(p as nat / b as nat == 0 && p as nat % b as nat == p) by (nonlinear_arith)
                    requires
                        0 <= p < b,
                ;
            }
        } else {
            let power: u128 = power_of_two(shift as u32);
            proof {
                lemma_pow2_at_most(shift as nat, 64);
                assert(0 < q * power <= 0x100_0000 * 0x1_0000_0000_0000_0000) by (nonlinear_arith)
                    requires
                        0 < q <= 0x100_0000,
                        0 < power <= 0x1_0000_0000_0000_0000,
                ;
            }
            let b: u128 = q as u128 * power;
            digits = divide_half_even(p as u128, b);
            proof {
                assert(p as nat / b as nat <= p) by (nonlinear_arith)
                    requires
                        b >= 1,
                        p >= 0,
                ;
            }
        }
    } else {
        let shift: i32 = e - quantum;
        let power: u128 = power_of_two(shift as u32);
        proof {
            lemma_pow2_at_most(shift as nat, 64);
            assert(p * power <= 0x100_0000 * 0x1_0000_0000_0000_0000 && p * power >= 0)
                by (nonlinear_arith)
                requires
                    0 <= p <= 0x100_0000,
                    0 <= power <= 0x1_0000_0000_0000_0000,
            ;
        }
        let a: u128 = p as u128 * power;
        digits = divide_half_even(a, q as u128);
        proof {
            assert(a as nat / q as nat <= a) by (nonlinear_arith)
                requires
                    q >= 1,
                    a >= 0,
            ;
        }
    }
    let pattern: u128 = (quantum + 149) as u128 * 0x80_0000 + digits;
    if pattern > 0x7f80_0000 {
        0x7f80_0000
    } else {
        pattern as u32
    }
}

proof fn lemma_pow2_at_most(n: nat, limit: nat)
    requires
        n <= limit,
    ensures
        0 < pow2(n) <= pow2(limit),
{
    lemma_pow2_pos(n);
    if n < limit {
        lemma_pow2_strictly_increases(n, limit);
    }
}

/// Numbers of single precision have no more than 24 digits.
proof fn lemma_bits_at_most_24(m: nat)
    requires
        m < 0x100_0000,
    ensures
        bit_length(m) <= 24,
{
    reveal_with_fuel(bit_length, 25);
}

/// The pattern of 1.
pub const SINGLE_ONE: u32 = 0x3f80_0000;

impl Single {
    /// Whether the number is neither infinite nor a NaN.
    pub open spec fn is_finite(self) -> bool {
        self.bits % 0x8000_0000 < 0x7f80_0000
    }

    /// Whether the pattern stands for no number.
    pub open spec fn is_nan(self) -> bool {
        self.bits % 0x8000_0000 > 0x7f80_0000
    }

    /// The place of a number among all numbers: `a < b` for two numbers just
    /// where the place of `a` is below that of `b`.
    pub open spec fn rank(self) -> int {
        if self.bits >= 0x8000_0000 {
            0x8000_0000 - self.bits
        } else {
            self.bits as int
        }
    }

    /// The number if it is finite, else the fallback.
    pub open spec fn finite_or(self, fallback: Single) -> Single {
        if self.is_finite() {
            self
        } else {
            fallback
        }
    }

    /// The number, or the floor where it is less or no number.
    pub open spec fn raised_to(self, floor: Single) -> Single {
        if self.is_nan() || self.rank() < floor.rank() {
            floor
        } else {
            self
        }
    }

    /// The number, or the bound that it is beyond. What is no number stays.
    pub open spec fn limited(self, low: Single, high: Single) -> Single {
        if self.is_nan() {
            self
        } else if self.rank() < low.rank() {
            low
        } else if self.rank() > high.rank() {
            high
        } else {
            self
        }
    }

    /// The digits of a finite number, as a whole number.
    pub open spec fn mantissa(self) -> nat {
        if self.bits % 0x8000_0000 < 0x80_0000 {
            (self.bits % 0x80_0000) as nat
        } else {
            (self.bits % 0x80_0000 + 0x80_0000) as nat
        }
    }

    /// The power of two that scales the digits of a finite number.
    pub open spec fn scale(self) -> int {
        if self.bits % 0x8000_0000 < 0x80_0000 {
            -149
        } else {
            self.bits % 0x8000_0000 / 0x80_0000 - 150
        }
    }

    /// The product of two numbers, to the nearest.
    pub open spec fn product(self, other: Single) -> Single {
        let sign: nat = if (self.bits >= 0x8000_0000) != (other.bits >= 0x8000_0000) {
            0x8000_0000
        } else {
            0
        };
        let digits = self.mantissa() * other.mantissa();
        if self.is_nan() || other.is_nan() {
            Single { bits: 0x7fc0_0000 }
        } else if !self.is_finite() || !other.is_finite() {
            if self.bits % 0x8000_0000 == 0 || other.bits % 0x8000_0000 == 0 {
                Single { bits: 0x7fc0_0000 }
            } else {
                Single { bits: (sign + 0x7f80_0000) as u32 }
            }
        } else {
            Single {
                bits: (sign + nearest_single(digits, self.scale() + other.scale())) as u32,
            }
        }
    }

    /// The quotient of two numbers, to the nearest.
    pub open spec fn quotient(self, other: Single) -> Single {
        let sign: nat = if (self.bits >= 0x8000_0000) != (other.bits >= 0x8000_0000) {
            0x8000_0000
        } else {
            0
        };
        let a = self.bits % 0x8000_0000;
        let b = other.bits % 0x8000_0000;
        if self.is_nan() || other.is_nan() || (a == 0 && b == 0) || (a == 0x7f80_0000 && b
            == 0x7f80_0000) {
            Single { bits: 0x7fc0_0000 }
        } else if a == 0x7f80_0000 || b == 0 {
            Single { bits: (sign + 0x7f80_0000) as u32 }
        } else if b == 0x7f80_0000 {
            Single { bits: sign as u32 }
        } else {
            Single {
                bits: (sign + nearest_ratio(
                    self.mantissa(),
                    other.mantissa(),
                    self.scale() - other.scale(),
                )) as u32,
            }
        }
    }

    /// The greater of two numbers; a NaN gives way.
    pub open spec fn greater(self, other: Single) -> Single {
        if self.is_nan() {
            other
        } else if other.is_nan() || other.rank() <= self.rank() {
            self
        } else {
            other
        }
    }

    /// The lesser of two numbers; a NaN gives way.
    pub open spec fn lesser(self, other: Single) -> Single {
        if self.is_nan() {
            other
        } else if other.is_nan() || self.rank() <= other.rank() {
            self
        } else {
            other
        }
    }

    /// The nearest whole number, and of two the larger; what is negative or no
    /// number counts as zero, and what is too large as the limit.
    pub open spec fn rounded(self, limit: nat) -> nat {
        if self.is_nan() || self.bits >= 0x8000_0000 {
            0
        } else if !self.is_finite() {
            limit
        } else {
            let whole = if self.scale() >= 0 {
                self.mantissa() * pow2(self.scale() as nat)
            } else {
                (2 * self.mantissa() / pow2((-self.scale()) as nat) + 1) / 2
            };
            if whole > limit {
                limit
            } else {
                whole
            }
        }
    }

    /// The least whole number not below; what is negative or no number counts as
    /// zero, and what is too large as the limit.
    pub open spec fn raised_to_whole(self, limit: nat) -> nat {
        if self.is_nan() || self.bits >= 0x8000_0000 {
            0
        } else if !self.is_finite() {
            limit
        } else {
            let whole = if self.scale() >= 0 {
                self.mantissa() * pow2(self.scale() as nat)
            } else {
                ((self.mantissa() + pow2((-self.scale()) as nat) - 1) as nat) / pow2(
                    (-self.scale()) as nat,
                )
            };
            if whole > limit {
                limit
            } else {
                whole
            }
        }
    }

    /// The number with this pattern.
    pub fn from_bits(bits: u32) -> (result: Self)
        ensures
            result.bits == bits,
    {
        Single { bits }
    }

    /// Whether the number is neither infinite nor a NaN.
    pub fn check_finite(self) -> (result: bool)
        ensures
            result == self.is_finite(),
    {
        self.bits % 0x8000_0000 < 0x7f80_0000
    }

    /// Whether the pattern stands for no number.
    pub fn check_nan(self) -> (result: bool)
        ensures
            result == self.is_nan(),
    {
        self.bits % 0x8000_0000 > 0x7f80_0000
    }

    /// Whether two patterns stand for the same number.
    pub open spec fn is_equal(self, other: Single) -> bool {
        !self.is_nan() && !other.is_nan() && self.rank() == other.rank()
    }

    /// Whether two patterns stand for the same number.
    pub fn equals(self, other: Single) -> (result: bool)
        ensures
            result == self.is_equal(other),
    {
        !self.check_nan() && !other.check_nan() && self.place() == other.place()
    }

    /// The place of the number among all numbers.
    pub fn place(self) -> (result: i64)
        ensures
            result == self.rank(),
    {
        if self.bits >= 0x8000_0000 {
            0x8000_0000 - self.bits as i64
        } else {
            self.bits as i64
        }
    }

    /// Multiplies two numbers.
    pub fn times(self, other: Single) -> (result: Single)
        ensures
            result == self.product(other),
    {
        let a: u32 = self.bits % 0x8000_0000;
        let b: u32 = other.bits % 0x8000_0000;
        let sign: u32 = if (self.bits >= 0x8000_0000) != (other.bits >= 0x8000_0000) {
            0x8000_0000
        } else {
            0
        };
        if a > 0x7f80_0000 || b > 0x7f80_0000 {
            return Single { bits: 0x7fc0_0000 };
        }
        if a == 0x7f80_0000 || b == 0x7f80_0000 {
            return if a == 0 || b == 0 {
                Single { bits: 0x7fc0_0000 }
            } else {
                Single { bits: sign + 0x7f80_0000 }
            };
        }
        let (m, d) = self.digits();
        let (n, e) = other.digits();
        assert(m * n <= 0x100_0000 * 0x100_0000 && m * n >= 0) by (nonlinear_arith)
            requires
                0 <= m <= 0x100_0000,
                0 <= n <= 0x100_0000,
        ;
        Single { bits: sign + to_nearest_single(m * n, d + e) }
    }

    /// The digits and their scale.
    pub(crate) fn digits(self) -> (result: (u64, i32))
        requires
            self.is_finite(),
        ensures
            result.0 == self.mantissa(),
            result.1 == self.scale(),
            result.0 < 0x100_0000,
            -149 <= result.1 <= 104,
    {
        let magnitude: u32 = self.bits % 0x8000_0000;
        if magnitude < 0x80_0000 {
            ((self.bits % 0x80_0000) as u64, -149)
        } else {
            ((self.bits % 0x80_0000) as u64 + 0x80_0000, (magnitude / 0x80_0000) as i32 - 150)
        }
    }

    /// Divides two numbers.
    pub fn over(self, other: Single) -> (result: Single)
        ensures
            result == self.quotient(other),
    {
        let a: u32 = self.bits % 0x8000_0000;
        let b: u32 = other.bits % 0x8000_0000;
        let sign: u32 = if (self.bits >= 0x8000_0000) != (other.bits >= 0x8000_0000) {
            0x8000_0000
        } else {
            0
        };
        if a > 0x7f80_0000 || b > 0x7f80_0000 || (a == 0 && b == 0) || (a == 0x7f80_0000 && b
            == 0x7f80_0000) {
            return Single { bits: 0x7fc0_0000 };
        }
        if a == 0x7f80_0000 || b == 0 {
            return Single { bits: sign + 0x7f80_0000 };
        }
        if b == 0x7f80_0000 {
            return Single { bits: sign };
        }
        let (m, d) = self.digits();
        let (n, e) = other.digits();
        Single { bits: sign + to_nearest_ratio(m, n, d - e) }
    }

    /// The number nearest to a whole number.
    pub fn from_whole(n: u32) -> (result: Single)
        ensures
            result.bits == nearest_single(n as nat, 0),
    {
        Single { bits: to_nearest_single(n as u64, 0) }
    }

    /// The greater of two numbers.
    pub fn max_of(self, other: Single) -> (result: Single)
        ensures
            result == self.greater(other),
    {
        if self.bits % 0x8000_0000 > 0x7f80_0000 {
            other
        } else if other.bits % 0x8000_0000 > 0x7f80_0000 || other.place() <= self.place() {
            self
        } else {
            other
        }
    }

    /// The lesser of two numbers.
    pub fn min_of(self, other: Single) -> (result: Single)
        ensures
            result == self.lesser(other),
    {
        if self.bits % 0x8000_0000 > 0x7f80_0000 {
            other
        } else if other.bits % 0x8000_0000 > 0x7f80_0000 || self.place() <= other.place() {
            self
        } else {
            other
        }
    }

    /// Rounds to the nearest whole number, held between zero and a limit.
    pub fn round_to(self, limit: u64) -> (result: u64)
        ensures
            result == self.rounded(limit as nat),
    {
        if self.bits >= 0x8000_0000 || self.bits > 0x7f80_0000 {
            return 0;
        }
        if self.bits == 0x7f80_0000 {
            return limit;
        }
        let (m, e) = self.digits();
        if e >= 0 {
            assert(m >= 0x80_0000);
            if e > 64 {
                proof {
                    lemma2_to64();
                    lemma_pow2_strictly_increases(64, e as nat);
                    assert(m * pow2(e as nat) > limit) by (nonlinear_arith)
                        requires
                            m >= 1,
                            pow2(e as nat) > 0x1_0000_0000_0000_0000,
                            limit <= 0xffff_ffff_ffff_ffff,
                    ;
                }
                return limit;
            }
            let power: u128 = power_of_two(e as u32);
            proof {
                lemma2_to64();
                if e < 64 {
                    lemma_pow2_strictly_increases(e as nat, 64);
                }
                assert(m * power <= 0x100_0000 * 0x1_0000_0000_0000_0000 && m * power >= 0)
                    by (nonlinear_arith)
                    requires
                        0 <= m <= 0x100_0000,
                        0 <= power <= 0x1_0000_0000_0000_0000,
                ;
            }
            let whole: u128 = m as u128 * power;
            if whole > limit as u128 {
                limit
            } else {
                whole as u64
            }
        } else if e < -64 {
            proof {
                lemma2_to64();
                lemma_pow2_strictly_increases(64, (-e) as nat);
                assert(2 * m as nat / pow2((-e) as nat) == 0) by (nonlinear_arith)
                    requires
                        0 <= 2 * m < pow2((-e) as nat),
                ;
            }
            0
        } else {
            let power: u128 = power_of_two((-e) as u32);
            let twice: u128 = 2 * m as u128 / power;
            proof {
                assert((2 * m) as int / power as int <= 2 * m) by (nonlinear_arith)
                    requires
                        power > 0,
                        m >= 0,
                ;
            }
            let whole: u128 = (twice + 1) / 2;
            if whole > limit as u128 {
                limit
            } else {
                whole as u64
            }
        }
    }

    /// Raises to a whole number, held between zero and a limit.
    pub fn ceil_to(self, limit: u64) -> (result: u64)
        ensures
            result == self.raised_to_whole(limit as nat),
    {
        if self.bits >= 0x8000_0000 || self.bits > 0x7f80_0000 {
            return 0;
        }
        if self.bits == 0x7f80_0000 {
            return limit;
        }
        let (m, e) = self.digits();
        if e >= 0 {
            return self.round_to(limit);
        }
        if e < -64 {
            proof {
                let q = pow2((-e) as nat);
                lemma2_to64();
                lemma_pow2_strictly_increases(64, (-e) as nat);
                if m == 0 {
                    assert(((m + q - 1) as nat) / q == 0) by (nonlinear_arith)
                        requires
                            m == 0,
                            q > 0,
                    ;
                } else {
                    assert(((m + q - 1) as nat) / q == 1) by (nonlinear_arith)
                        requires
                            1 <= m < q,
                    ;
                }
            }
            return if m == 0 || limit == 0 {
                0
            } else {
                1
            };
        }
        let power: u128 = power_of_two((-e) as u32);
        let whole: u128 = (m as u128 + power - 1) / power;
        proof {
            assert(whole <= m) by (nonlinear_arith)
                requires
                    whole == (m + power - 1) / power as int,
                    power >= 1,
                    m >= 0,
            ;
        }
        if whole > limit as u128 {
            limit
        } else {
            whole as u64
        }
    }

    /// Replaces what is not finite by a fallback.
    pub fn or_if_not_finite(self, fallback: Single) -> (result: Single)
        ensures
            result == self.finite_or(fallback),
    {
        if self.check_finite() {
            self
        } else {
            fallback
        }
    }

    /// Raises the number to a floor.
    pub fn at_least(self, floor: Single) -> (result: Single)
        ensures
            result == self.raised_to(floor),
    {
        if self.check_nan() || self.place() < floor.place() {
            floor
        } else {
            self
        }
    }

    /// Holds the number within bounds.
    pub fn clamp_to(self, low: Single, high: Single) -> (result: Single)
        ensures
            result == self.limited(low, high),
    {
        if self.check_nan() {
            self
        } else if self.place() < low.place() {
            low
        } else if self.place() > high.place() {
            high
        } else {
            self
        }
    }
}

// ---------------------------------------------------------------------------
// Numerals
// ---------------------------------------------------------------------------

/// The pattern of the double that a numeral is read as, if it is one.
pub uninterp spec fn double_of_text(text: Seq<char>) -> Option<u64>;

/// The pattern of the single-precision number that a numeral is read as, if it
/// is one.
pub uninterp spec fn single_of_text(text: Seq<char>) -> Option<u32>;

/// The digits of a plain decimal numeral and how many of them stand behind the
/// point. A plain numeral has digits before the point, and behind it if there
/// is one, and no more than fifteen of them.
pub open spec fn plain_decimal(s: Seq<char>) -> Option<(nat, nat)> {
    match find_spec(s, seq!['.']) {
        None => if 0 < s.len() <= 15 && all_digits(s) {
            Some((digits_value(s), 0))
        } else {
            None
        },
        Some(at) => {
            let digits = s.take(at) + s.skip(at + 1);
            if 0 < at < s.len() - 1 && digits.len() <= 15 && all_digits(digits) {
                Some((digits_value(digits), (s.len() - 1 - at) as nat))
            } else {
                None
            }
        },
    }
}

/// Whether a pattern is that of a number given by its digits and scale.
pub open spec fn encodes(bits: u64, number: (nat, int)) -> bool {
    let double = Double { bits };
    &&& !double.has_sign()
    &&& double.is_finite()
    &&& {
        ||| number.0 == 0 && bits == 0
        ||| double.mantissa() == number.0 && double.scale() == number.1
        ||| number.0 == 0x20_0000_0000_0000 && double.mantissa() == 0x10_0000_0000_0000
            && double.scale() == number.1 + 1
    }
}

/// The pattern of a number given by its digits and scale.
pub fn double_of_digits(m: u64, e: i32) -> (result: u64)
    requires
        m == 0 || 0x10_0000_0000_0000 <= m <= 0x20_0000_0000_0000,
        -1000 <= e <= 900,
    ensures
        encodes(result, (m as nat, e as int)),
        result < 0x7ff0_0000_0000_0000,
{
    if m == 0 {
        0
    } else if m == 0x20_0000_0000_0000 {
        (e + 1076) as u64 * 0x10_0000_0000_0000
    } else {
        (e + 1075) as u64 * 0x10_0000_0000_0000 + (m - 0x10_0000_0000_0000)
    }
}

/// `str::parse` for a double-precision number, by its bit pattern.
///
/// The result is a function of the text. A plain decimal numeral is accepted,
/// and read as the nearest double, as the documentation of the conversion
/// promises. Of other numerals (with a sign, an exponent, or many digits, and
/// the words for infinity and NaN) nothing more is said.
#[verifier::external_body]
pub(crate) fn parse_double_bits(text: &str) -> (result: Option<u64>)
    ensures
        result == double_of_text(text@),
        plain_decimal(text@) matches Some((digits, places)) ==> result is Some && encodes(
            result->0,
            nearest_double(digits, pow(10, places) as nat),
        ),
{
    let value = text.parse().ok()?;
    // A number of seconds is a double: this call only settles the type.
    let _ = std::time::Duration::try_from_secs_f64(value);
    Some(value.to_bits())
}

/// `str::parse` for a single-precision number, by its bit pattern.
///
/// The result is a function of the text; which one is not said.
#[verifier::external_body]
pub(crate) fn parse_single_bits(text: &str) -> (result: Option<u32>)
    ensures
        result == single_of_text(text@),
{
    let value = text.parse().ok()?;
    // A number of seconds may be single: this call only settles the type.
    let _ = std::time::Duration::try_from_secs_f32(value);
    Some(value.to_bits())
}

// ---------------------------------------------------------------------------
// Decimal seconds
// ---------------------------------------------------------------------------

/// A fraction less than a half away from a whole number rounds to it.
proof fn lemma_rounds_to(a: nat, b: nat, n: nat)
    requires
        b > 0,
        -(b as int) < 2 * (a - n * b) < b,
    ensures
        round_half_even(a, b) == n,
{
    let r = a - n * b;
    assert(n * b >= 0) by (nonlinear_arith)
        requires
            n >= 0,
            b >= 0,
    ;
    if r >= 0 {
        lemma_fundamental_div_mod_converse(a as int, b as int, n as int, r);
    } else {
        assert(n >= 1) by (nonlinear_arith)
            requires
                a >= 0,
                a - n * b < 0,
                n >= 0,
                b > 0,
        ;
        assert(a == (n - 1) * b + (b + r)) by (nonlinear_arith)
            requires
                r == a - n * b,
        ;
        lemma_fundamental_div_mod_converse(a as int, b as int, n - 1, b + r);
    }
}

/// A rounded fraction is no more than a half away.
proof fn lemma_rounding_error(p: nat, q: nat)
    requires
        q > 0,
    ensures
        -(q as int) <= 2 * (round_half_even(p, q) * q - p) <= q,
{
    let floor = p / q;
    let rest = p % q;
    assert(p == q * floor + rest && 0 <= rest < q) by {
        lemma_fundamental_div_mod(p as int, q as int);
    }
    assert(floor * q == q * floor && (floor + 1) * q == q * floor + q) by (nonlinear_arith);
}

/// A fraction of at least one rounds to at least one.
proof fn lemma_rounds_up_from(p: nat, q: nat)
    requires
        q > 0,
        p >= q,
    ensures
        round_half_even(p, q) > 0,
{
    assert(p / q >= 1) by (nonlinear_arith)
        requires
            p >= q,
            q > 0,
    ;
}

/// A plain decimal number of seconds, of less than four million seconds and
/// with no more than nine places, is that many nanoseconds exactly once it is
/// read as the nearest double.
pub proof fn law_decimal_seconds_are_exact(bits: u64, digits: nat, places: nat)
    requires
        places <= 9,
        digits < 0x40_0000 * pow(10, places),
        encodes(bits, nearest_double(digits, pow(10, places) as nat)),
    ensures
        (Double { bits }).nanos() == Some((digits * pow(10, (9 - places) as nat)) as nat),
{
    let q = pow(10, places) as nat;
    let double = Double { bits };
    let rest = pow(10, (9 - places) as nat);
    lemma_pow_positive(10, places);
    lemma_pow_positive(10, (9 - places) as nat);
    lemma_pow_adds(10, places, (9 - places) as nat);
    assert(pow(10, 9) == 1_000_000_000) by {
        reveal_with_fuel(pow, 10);
    }
    let n = (digits * rest) as nat;
    assert(n * q == digits * 1_000_000_000 && digits * rest >= 0) by (nonlinear_arith)
        requires
            n == digits * rest,
            q * rest == 1_000_000_000,
            digits >= 0,
            rest > 0,
    ;
    assert(n <= MAX_NANOS) by (nonlinear_arith)
        requires
            n * q == digits * 1_000_000_000,
            digits < 0x40_0000 * q,
            q > 0,
            MAX_NANOS == 18_446_744_073_709_551_615_999_999_999,
    ;
    if digits == 0 {
        assert(n == 0) by (nonlinear_arith)
            requires
                digits == 0,
                n == digits * rest,
        ;
        assert(double.mantissa() == 0);
        lemma_pow2_pos(1074);
        lemma_rounds_to(0, pow2(1074), 0);
    } else {
        lemma2_to64();
        assert(digits * pow2(1) < 0x20_0000_0000_0000 * q) by (nonlinear_arith)
            requires
                digits < 0x40_0000 * q,
                pow2(1) == 2,
                q > 0,
        ;
        let t = lemma_scale_up_exists(digits, q, 1);
        let s = choose|s: int| #[trigger] fills_mantissa(digits, q, s);
        lemma_scale_is_unique(digits, q, s, t);
        let power = pow2(s as nat);
        assert(power > 0x4000_0000) by (nonlinear_arith)
            requires
                digits * power >= 0x10_0000_0000_0000 * q,
                digits < 0x40_0000 * q,
                q > 0,
                power >= 0,
        ;
        let m = round_half_even(digits * power, q);
        lemma_rounding_error(digits * power, q);
        let a = m * 1_000_000_000;
        let error = m * q - digits * power;
        assert((a - n * power) * q == 1_000_000_000 * error) by (nonlinear_arith)
            requires
                a == m * 1_000_000_000,
                n * q == digits * 1_000_000_000,
                error == m * q - digits * power,
        ;
        assert(-1_000_000_000 <= 2 * (a - n * power) <= 1_000_000_000) by (nonlinear_arith)
            requires
                (a - n * power) * q == 1_000_000_000 * error,
                -(q as int) <= 2 * error <= q,
                q > 0,
        ;
        assert(nearest_double(digits, q) == (m, -s));
        assert(!double.is_negative() && double.is_finite());
        assert(m > 0) by {
            lemma_rounds_up_from(digits * power, q);
        }
        if double.mantissa() == m && double.scale() == -s {
            lemma_rounds_to(a, power, n);
            assert(dyadic_nanos(m, -s) == Some(n));
        } else {
            assert(m == 0x20_0000_0000_0000);
            assert(double.mantissa() == 0x10_0000_0000_0000 && double.scale() == 1 - s);
            lemma_pow2_unfold(s as nat);
            let half = pow2((s - 1) as nat);
            let b = (0x10_0000_0000_0000 * 1_000_000_000) as nat;
            assert(2 * (b - n * half) == a - n * power) by (nonlinear_arith)
                requires
                    a == 2 * b,
                    power == 2 * half,
            ;
            lemma_rounds_to(b, half, n);
            assert(dyadic_nanos(0x10_0000_0000_0000, 1 - s) == Some(n));
        }
    }
}

} // verus!
