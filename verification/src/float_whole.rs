//! The whole numbers next to single-precision ones.
use crate::binary64::power_of_two;
use crate::float_bits::{nearest_single, to_nearest_single, Single};
use vstd::arithmetic::power2::{lemma2_to64, lemma_pow2_strictly_increases, pow2};
use vstd::prelude::*;

verus! {

impl Single {
    /// The whole part of a finite number, without its sign.
    pub open spec fn whole_magnitude(self) -> nat {
        if self.scale() >= 0 {
            self.mantissa() * pow2(self.scale() as nat)
        } else {
            self.mantissa() / pow2((-self.scale()) as nat)
        }
    }

    /// Whether a finite number has no fraction.
    pub open spec fn is_whole(self) -> bool {
        self.scale() >= 0 || self.mantissa() % pow2((-self.scale()) as nat) == 0
    }

    /// The whole part, where what is negative or no number counts as zero and
    /// what is too large as the limit.
    pub open spec fn whole_part(self, limit: nat) -> nat {
        if self.is_nan() || self.bits >= 0x8000_0000 {
            0
        } else if !self.is_finite() || self.whole_magnitude() > limit {
            limit
        } else {
            self.whole_magnitude()
        }
    }

    /// The greatest whole number that is not above.
    pub open spec fn floored(self) -> Single {
        if !self.is_finite() || self.is_whole() {
            self
        } else if self.bits < 0x8000_0000 {
            Single { bits: nearest_single(self.whole_magnitude(), 0) as u32 }
        } else {
            Single { bits: (0x8000_0000 + nearest_single(self.whole_magnitude() + 1, 0)) as u32 }
        }
    }

    /// The nearest whole number with a sign, and of two the one farther from
    /// zero, held at the machine's limits. What is no number counts as zero.
    pub open spec fn rounded_signed(self) -> int {
        if self.bits < 0x8000_0000 {
            self.rounded(0x7fff_ffff) as int
        } else {
            -(Single { bits: (self.bits - 0x8000_0000) as u32 }.rounded(0x8000_0000))
        }
    }

    /// The least whole number with a sign that is not below, held at the
    /// machine's limits. What is no number counts as zero.
    pub open spec fn raised_signed(self) -> int {
        if self.bits < 0x8000_0000 {
            self.raised_to_whole(0x7fff_ffff) as int
        } else {
            -(Single { bits: (self.bits - 0x8000_0000) as u32 }.whole_part(0x8000_0000))
        }
    }

    /// The whole part, held between zero and a limit.
    pub fn whole_to(self, limit: u64) -> (result: u64)
        ensures
            result == self.whole_part(limit as nat),
    {
        if self.bits >= 0x8000_0000 || self.bits > 0x7f80_0000 {
            return 0;
        }
        if self.bits == 0x7f80_0000 {
            return limit;
        }
        let (m, e) = self.digits();
        if e >= 0 {
            if e > 64 {
                proof {
                    lemma2_to64();
                    lemma_pow2_strictly_increases(64, e as nat);
                    assert(m * pow2(e as nat) > limit) by (nonlinear_arith)
                        requires
                            m >= 1,
                            pow2(e as nat) > 0x1_0000_0000_0000_0000,
                            limit <= 0xffff_ffff_ffff_ffff,
                    ;
                }
                return limit;
            }
            let power: u128 = power_of_two(e as u32);
            proof {
                lemma2_to64();
                if e < 64 {
                    lemma_pow2_strictly_increases(e as nat, 64);
                }
                assert(m * power <= 0x100_0000 * 0x1_0000_0000_0000_0000 && m * power >= 0)
                    by (nonlinear_arith)
                    requires
                        0 <= m <= 0x100_0000,
                        0 <= power <= 0x1_0000_0000_0000_0000,
                ;
            }
            let whole: u128 = m as u128 * power;
            if whole > limit as u128 {
                limit
            } else {
                whole as u64
            }
        } else {
            let (whole, _) = split_digits(m, e);
            if whole > limit {
                limit
            } else {
                whole
            }
        }
    }

    /// Lowers to a whole number.
    pub fn floor(self) -> (result: Single)
        ensures
            result == self.floored(),
    {
        if !self.check_finite() {
            return self;
        }
        let (m, e) = self.digits();
        if e >= 0 {
            return self;
        }
        let (whole, is_whole) = split_digits(m, e);
        if is_whole {
            self
        } else if self.bits < 0x8000_0000 {
            Single { bits: to_nearest_single(whole, 0) }
        } else {
            Single { bits: 0x8000_0000 + to_nearest_single(whole + 1, 0) }
        }
    }

    /// Rounds to the nearest whole number with a sign.
    pub fn round_to_signed(self) -> (result: i32)
        ensures
            result == self.rounded_signed(),
    {
        if self.bits < 0x8000_0000 {
            self.round_to(0x7fff_ffff) as i32
        } else {
            let magnitude: u64 = Single { bits: self.bits - 0x8000_0000 }.round_to(0x8000_0000);
            (-(magnitude as i64)) as i32
        }
    }

    /// Raises to a whole number with a sign.
    pub fn ceil_to_signed(self) -> (result: i32)
        ensures
            result == self.raised_signed(),
    {
        if self.bits < 0x8000_0000 {
            self.ceil_to(0x7fff_ffff) as i32
        } else {
            let magnitude: u64 = Single { bits: self.bits - 0x8000_0000 }.whole_to(0x8000_0000);
            (-(magnitude as i64)) as i32
        }
    }
}

/// The whole part of digits at a negative power of two, and whether nothing is
/// left of them.
fn split_digits(m: u64, e: i32) -> (result: (u64, bool))
    requires
        m < 0x100_0000,
        -149 <= e < 0,
    ensures
        result.0 == m as nat / pow2((-e) as nat),
        result.1 <==> m as nat % pow2((-e) as nat) == 0,
        result.0 <= m,
{
    if e < -64 {
        proof {
            lemma2_to64();
            lemma_pow2_strictly_increases(64, (-e) as nat);
            let q = pow2((-e) as nat);
            assert(m as nat / q == 0 && m as nat % q == m) by (nonlinear_arith)
                requires
                    0 <= m < q,
            ;
        }
        return (0, m == 0);
    }
    let power: u128 = power_of_two((-e) as u32);
    proof {
        assert(m as u128 / power <= m && m as u128 % power <= m) by (nonlinear_arith)
            requires
                power > 0,
                m >= 0,
        ;
    }
    ((m as u128 / power) as u64, m as u128 % power == 0)
}

} // verus!
