//! What holds of the arithmetic of numbers in single precision.
use crate::binary64::{lemma_round_scaled, round_half_even};
use crate::float_bits::{
    bit_length, nearest_ratio, nearest_single, ratio_length, Double, Single, SINGLE_ONE,
};
use vstd::arithmetic::div_mod::lemma_fundamental_div_mod_converse;
use vstd::arithmetic::power2::{
    lemma2_to64, lemma_pow2_adds, lemma_pow2_pos, lemma_pow2_unfold, pow2,
};
use vstd::prelude::*;

verus! {

/// Twice a number has one binary digit more.
proof fn lemma_doubled_length(m: nat, k: nat)
    requires
        m > 0,
    ensures
        bit_length((m * pow2(k)) as nat) == bit_length(m) + k,
        m * pow2(k) > 0,
    decreases k,
{
    lemma2_to64();
    lemma_pow2_pos(k);
    assert(m * pow2(k) > 0) by (nonlinear_arith)
        requires
            m > 0,
            pow2(k) > 0,
    ;
    if k == 0 {
        assert(m * pow2(0) == m) by (nonlinear_arith)
            requires
                pow2(0) == 1,
        ;
    } else {
        let less = (k - 1) as nat;
        lemma_pow2_unfold(k);
        lemma_doubled_length(m, less);
        let half = m * pow2(less);
        assert(m * pow2(k) == half * 2) by (nonlinear_arith)
            requires
                pow2(k) == 2 * pow2(less),
                half == m * pow2(less),
        ;
        let whole = (m * pow2(k)) as nat;
        assert(whole / 2 == half);
    }
}

/// A number divides by one without rest.
proof fn lemma_round_by_one(m: nat)
    ensures
        round_half_even(m, 1) == m,
{
    lemma_fundamental_div_mod_converse(m as int, 1, m as int, 0);
}

/// A multiple is rounded to its factor.
proof fn lemma_round_multiple(n: nat, q: nat)
    requires
        q > 0,
    ensures
        round_half_even(n * q, q) == n,
{
    lemma_fundamental_div_mod_converse((n * q) as int, q as int, n as int, 0);
}

/// Digits that are moved against their power of two stand for the same number.
proof fn lemma_moved_digits(m: nat, e: int, k: nat)
    requires
        m > 0,
    ensures
        nearest_single((m * pow2(k)) as nat, e - k) == nearest_single(m, e),
{
    let moved = (m * pow2(k)) as nat;
    lemma_doubled_length(m, k);
    lemma_pow2_pos(k);
    let quantum = if e + bit_length(m) - 24 < -149 {
        -149
    } else {
        e + bit_length(m) - 24
    };
    if quantum >= e {
        let shift = (quantum - e) as nat;
        lemma_pow2_pos(shift);
        lemma_pow2_adds(shift, k);
        lemma_round_scaled(m, pow2(shift), pow2(k));
        assert((quantum - (e - k)) as nat == shift + k);
    } else if quantum >= e - k {
        let up = (e - quantum) as nat;
        let down = (k - up) as nat;
        lemma_pow2_pos(down);
        lemma_pow2_adds(up, down);
        let digits = (m * pow2(up)) as nat;
        assert(m * pow2(k) == digits * pow2(down)) by (nonlinear_arith)
            requires
                pow2(k) == pow2(up) * pow2(down),
                digits == m * pow2(up),
        ;
        lemma_round_multiple(digits, pow2(down));
        assert((quantum - (e - k)) as nat == down);
        if quantum == e {
            assert(false);
        }
    } else {
        let up = (e - quantum) as nat;
        let less = (up - k) as nat;
        lemma_pow2_adds(k, less);
        assert(moved * pow2(less) == m * pow2(up)) by (nonlinear_arith)
            requires
                pow2(up) == pow2(k) * pow2(less),
                moved == m * pow2(k),
        ;
        assert((e - k - quantum) as nat == less);
    }
}

/// The digits of a finite number: no more than 24, and all of them unless it is a
/// small one.
proof fn lemma_digits_of(x: Single)
    requires
        x.is_finite(),
        x.bits % 0x8000_0000 > 0,
    ensures
        0 < x.mantissa() < 0x100_0000,
        x.scale() >= -149,
        x.scale() > -149 ==> bit_length(x.mantissa()) == 24,
        bit_length(x.mantissa()) <= 24,
{
    let m = x.mantissa();
    lemma_length_at_most_24(m);
    if x.bits % 0x8000_0000 >= 0x80_0000 {
        assert(m >= 0x80_0000);
    }
}

proof fn lemma_length_at_most_24(m: nat)
    requires
        0 < m < 0x100_0000,
    ensures
        bit_length(m) <= 24,
        m >= 0x80_0000 ==> bit_length(m) == 24,
{
    reveal_with_fuel(bit_length, 26);
}

/// A number is nearest to itself.
pub proof fn law_numbers_are_nearest_to_themselves(x: Single)
    requires
        x.is_finite(),
        x.bits % 0x8000_0000 > 0,
    ensures
        nearest_single(x.mantissa(), x.scale()) == x.bits % 0x8000_0000,
{
    lemma_digits_of(x);
    lemma2_to64();
    lemma_round_by_one(x.mantissa());
    let bits = x.bits % 0x8000_0000;
    assert(x.bits % 0x80_0000 == bits % 0x80_0000) by {
        lemma_low_bits(x.bits);
    }
    assert(bits == bits / 0x80_0000 * 0x80_0000 + bits % 0x80_0000);
}

proof fn lemma_low_bits(bits: u32)
    ensures
        bits % 0x80_0000 == bits % 0x8000_0000 % 0x80_0000,
{
    assert(bits % 0x80_0000 == bits % 0x8000_0000 % 0x80_0000) by (bit_vector);
}

/// A number times one is the number, on either side.
pub proof fn law_one_changes_nothing(x: Single)
    requires
        x.is_finite(),
    ensures
        x.product((Single { bits: SINGLE_ONE })) == x,
        (Single { bits: SINGLE_ONE }).product(x) == x,
{
    let one = Single { bits: SINGLE_ONE };
    lemma2_to64();
    assert(one.mantissa() == 0x80_0000 && one.scale() == -23);
    let m = x.mantissa();
    if x.bits % 0x8000_0000 == 0 {
        assert(x.bits % 0x80_0000 == 0) by {
            lemma_low_bits(x.bits);
        }
        assert(m == 0);
        assert(m * one.mantissa() == 0 && one.mantissa() * m == 0) by (nonlinear_arith)
            requires
                m == 0,
        ;
    } else {
        law_numbers_are_nearest_to_themselves(x);
        lemma_digits_of(x);
        lemma_moved_digits(m, x.scale(), 23);
        assert(one.mantissa() * m == m * pow2(23) && m * one.mantissa() == m * pow2(23))
            by (nonlinear_arith)
            requires
                one.mantissa() == pow2(23),
        ;
    }
}

/// A product does not depend on which factor comes first.
pub proof fn law_products_commute(a: Single, b: Single)
    ensures
        a.product(b) == b.product(a),
{
    assert(a.mantissa() * b.mantissa() == b.mantissa() * a.mantissa()) by (nonlinear_arith);
}

/// A number by itself is one.
pub proof fn law_number_by_itself_is_one(x: Single)
    requires
        x.is_finite(),
        x.bits % 0x8000_0000 > 0,
    ensures
        x.quotient(x).bits == SINGLE_ONE,
{
    lemma_digits_of(x);
    lemma2_to64();
    let m = x.mantissa();
    assert(m * pow2(0) == m) by (nonlinear_arith)
        requires
            pow2(0) == 1,
    ;
    assert(ratio_length(m, m) == 0);
    assert(m * pow2(23) == pow2(23) * m) by (nonlinear_arith);
    lemma_round_multiple(pow2(23), m);
    assert(nearest_ratio(m, m, 0) == SINGLE_ONE);
}

/// A number in double precision that single precision can hold is narrowed to the same
/// number: the same digits at the same power of two, and the same sign.
pub proof fn law_narrowing_keeps_what_fits(x: Double, digits: nat)
    requires
        x.is_finite(),
        0x80_0000 <= digits < 0x100_0000,
        x.mantissa() == digits * 0x2000_0000,
        -149 <= x.scale() + 29 <= 104,
    ensures
        x.narrowed().is_finite(),
        x.narrowed().mantissa() == digits,
        x.narrowed().scale() == x.scale() + 29,
        x.narrowed().bits >= 0x8000_0000 <==> x.has_sign(),
{
    lemma2_to64();
    lemma_round_multiple(digits, 0x2000_0000);
    let quantum = x.scale() + 29;
    assert((quantum - x.scale()) as nat == 29);
    let pattern = (quantum + 149) * 0x80_0000 + digits;
    assert(pattern < 0x7f80_0000);
    let sign: int = if x.has_sign() {
        0x8000_0000
    } else {
        0
    };
    let bits = x.narrowed().bits;
    assert(bits == sign + pattern);
    assert(bits % 0x8000_0000 == pattern);
    lemma_low_bits(bits);
    lemma_fundamental_div_mod_converse(
        pattern,
        0x80_0000,
        quantum + 150,
        digits - 0x80_0000,
    );
}

/// What is rounded is the nearest whole number: no more than a half away, and of two
/// the even one. Multiples stay as they are.
pub proof fn law_rounding_is_to_the_nearest(p: nat, q: nat, n: nat)
    requires
        q > 0,
    ensures
        -(q as int) <= 2 * (round_half_even(p, q) * q - p) <= q,
        2 * (round_half_even(p, q) * q - p) == q || 2 * (p - round_half_even(p, q) * q) == q
            ==> round_half_even(p, q) % 2 == 0,
        round_half_even(n * q, q) == n,
{
    lemma_round_multiple(n, q);
    let floor = p / q;
    let rest = p % q;
    vstd::arithmetic::div_mod::lemma_fundamental_div_mod(p as int, q as int);
    assert(q * floor == floor * q) by (nonlinear_arith);
    assert((floor + 1) * q == floor * q + q) by (nonlinear_arith);
}

} // verus!
