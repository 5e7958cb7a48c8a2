use erika::binary64::{
    dyadic_to_nanos, period_to_nanos, quotient_to_nanos, scale_nanos, scale_whole, ticks_to_nanos,
};
use erika::float_bits::{Double, Single};
use erika::float_sum::single_of_signed;
use erika::num::to_wrapped_i32;
use erika::time::Duration;

/// Numbers that look like any.
struct Numbers {
    state: u64,
}

impl Numbers {
    fn new(seed: u64) -> Self {
        Self { state: seed }
    }

    fn next(&mut self) -> u64 {
        self.state ^= self.state << 13;
        self.state ^= self.state >> 7;
        self.state ^= self.state << 17;
        self.state
    }

    fn pattern(&mut self) -> u32 {
        let bits = (self.next() >> 16) as u32;
        match self.next() % 4 {
            0 => bits,
            1 => (bits % 0x0200_0000) + 0x3f00_0000,
            2 => (bits % 0x0100_0000) | (bits & 0x8000_0000),
            _ => [
                0,
                0x8000_0000,
                0x7f80_0000,
                0xff80_0000,
                0x7fc0_0000,
                1,
                0x7f7f_ffff,
                0x0080_0000,
                0x3f80_0000,
            ][(bits % 9) as usize],
        }
    }
}

fn same(actual: Single, expected: f32) -> bool {
    if expected.is_nan() {
        actual.check_nan()
    } else {
        actual.bits == expected.to_bits()
    }
}

#[test]
fn singles_are_computed_as_the_machine_does() {
    let mut numbers = Numbers::new(0x9e37_79b9_7f4a_7c15);
    for _ in 0..200_000 {
        let a = numbers.pattern();
        let b = numbers.pattern();
        let (x, y) = (f32::from_bits(a), f32::from_bits(b));
        let (s, t) = (Single::from_bits(a), Single::from_bits(b));
        assert!(same(s.times(t), x * y), "{a:x} * {b:x}");
        assert!(same(s.over(t), x / y), "{a:x} / {b:x}");
        assert!(same(s.plus(t), x + y), "{a:x} + {b:x}");
        assert!(same(s.minus(t), x - y), "{a:x} - {b:x}");
        assert!(same(s.negated(), -x), "-{a:x}");
        assert!(same(s.floor(), x.floor()), "floor {a:x}");
        assert_eq!(s.whole_to(u64::MAX), x as u64, "whole {a:x}");
        assert_eq!(s.round_to_signed(), x.round() as i32, "round {a:x}");
        assert_eq!(s.ceil_to_signed(), x.ceil() as i32, "ceil {a:x}");
        assert_eq!(s.equals(t), x == y);
        assert_eq!(s.check_finite(), x.is_finite());
        if !x.is_nan() && !y.is_nan() {
            assert_eq!(s.place() < t.place(), x < y);
        }
        let greater = f32::from_bits(s.max_of(t).bits);
        assert!(greater == x.max(y) || (greater.is_nan() && x.max(y).is_nan()));
        let less = f32::from_bits(s.min_of(t).bits);
        assert!(less == x.min(y) || (less.is_nan() && x.min(y).is_nan()));
        assert_eq!(
            s.round_to(u32::MAX as u64),
            x.round() as u32 as u64,
            "{a:x}"
        );
        assert_eq!(s.ceil_to(u16::MAX as u64), x.ceil() as u16 as u64, "{a:x}");
        let clamped = s.clamp_to(Single::from_bits(0), Single::from_bits(0x3f80_0000));
        assert!(clamped.check_nan() == x.is_nan());
        if !x.is_nan() {
            assert_eq!(f32::from_bits(clamped.bits), x.clamp(0.0, 1.0));
        }
        let n = numbers.next() as u32;
        assert!(same(Single::from_whole(n), n as f32));
        assert!(same(single_of_signed(n as i32), n as i32 as f32));
        assert_eq!(to_wrapped_i32(n), n as i32);
    }
}

#[test]
fn doubles_are_computed_as_the_machine_does() {
    let mut numbers = Numbers::new(0x2545_f491_4f6c_dd1d);
    for _ in 0..100_000 {
        let bits = match numbers.next() % 3 {
            0 => numbers.next(),
            1 => (numbers.next() % (80u64 << 52)) + (980u64 << 52),
            _ => (numbers.next() % (260u64 << 52)) + (880u64 << 52),
        };
        let x = f64::from_bits(bits);
        let d = Double { bits };
        assert!(same(d.narrow(), x as f32), "{bits:x}");
        assert_eq!(
            d.to_span().map(|span| span.as_nanos()),
            std::time::Duration::try_from_secs_f64(x)
                .ok()
                .map(|span| span.as_nanos()),
            "{x:e}"
        );
        assert_eq!(d.to_whole(u64::MAX), x as u64, "{x:e}");
        assert_eq!(d.to_whole(u32::MAX as u64), x as u32 as u64, "{x:e}");
        assert_eq!(d.check_positive(), x.is_finite() && x > 0.0);
    }
    let none = Double {
        bits: (-3.5f64).to_bits(),
    };
    assert_eq!(none.to_span_from_zero(), Some(Duration::zero()));
}

fn nanos_of(seconds: f64) -> Option<u128> {
    std::time::Duration::try_from_secs_f64(seconds)
        .ok()
        .map(|span| span.as_nanos())
}

#[test]
fn times_are_scaled_as_the_machine_does() {
    let mut numbers = Numbers::new(0x1234_5678_9abc_def1);
    for _ in 0..50_000 {
        let count = numbers.next() >> (numbers.next() % 64);
        let rate = ((numbers.next() >> 32) as u32 >> (numbers.next() % 32)).max(1);
        assert_eq!(
            quotient_to_nanos(count, rate),
            nanos_of(count as f64 / rate as f64),
            "{count} / {rate}"
        );
        let ticks = count >> 1;
        let num = (numbers.next() >> 33) as u32;
        assert_eq!(
            ticks_to_nanos(ticks, num, rate),
            nanos_of(ticks as f64 * num as f64 / rate as f64),
            "{ticks} * {num} / {rate}"
        );
        let factor = f64::from_bits((numbers.next() % (40u64 << 52)) + (1003u64 << 52));
        let (m, e) = Double {
            bits: factor.to_bits(),
        }
        .digits();
        assert_eq!(dyadic_to_nanos(m, e), nanos_of(factor), "{factor:e}");
        let shift = numbers.next() % 64;
        let span = std::time::Duration::new(
            numbers.next() >> shift,
            (numbers.next() % 1_000_000_000) as u32,
        );
        assert_eq!(
            scale_nanos(span.as_nanos(), m, e),
            nanos_of(span.as_secs_f64() * factor),
            "{span:?} * {factor:e}"
        );
        assert_eq!(period_to_nanos(m, e), nanos_of(1.0 / factor), "{factor:e}");
        let size = numbers.next() as u32;
        assert_eq!(
            scale_whole(size, m, e, u32::MAX),
            (size as f64 * factor).round().min(u32::MAX as f64) as u32,
            "{size} * {factor:e}"
        );
    }
}

#[test]
fn spans_are_computed() {
    let span = Duration::from_millis(1_500);
    assert_eq!(span.as_secs(), 1);
    assert_eq!(span.subsec_nanos(), 500_000_000);
    assert_eq!(span.as_micros(), 1_500_000);
    assert_eq!(Duration::try_from_nanos(u128::MAX), None);
    assert_eq!(
        Duration::saturating_from_nanos(u128::MAX),
        Duration::max_value()
    );
    assert_eq!(
        span.checked_sub(Duration::from_secs(2)),
        None
    );
    assert_eq!(span.saturating_sub(Duration::from_secs(2)), Duration::zero());
    assert_eq!(Duration::max_value().checked_add(span), None);
    assert_eq!(Duration::max_value().saturating_add(span), Duration::max_value());
    assert!(span.is_before(Duration::from_secs(2)));
    assert_eq!(span.longer(Duration::zero()), span);
    assert_eq!(span.shorter(Duration::zero()), Duration::zero());
}

#[test]
fn spans_are_taken_to_seconds_as_the_machine_does() {
    let mut numbers = Numbers::new(0x1234_5678_9abc_def1);
    let nanos = u128::from(u64::MAX) * 1_000_000_000 + 999_999_999;
    let mut spans = vec![0, 1, 999_999_999, 1_000_000_000, 1_500_000_001, nanos];
    for _ in 0..50_000 {
        let whole = u128::from(numbers.next()) >> (numbers.next() % 64);
        let part = u128::from(numbers.next() % 1_000_000_000);
        spans.push(whole * 1_000_000_000 + part);
    }
    for nanos in spans {
        let span = std::time::Duration::new(
            (nanos / 1_000_000_000) as u64,
            (nanos % 1_000_000_000) as u32,
        );
        let ours = Double::from_span(Duration::try_from_nanos(nanos).unwrap());
        assert_eq!(ours.bits, span.as_secs_f64().to_bits(), "{nanos}");
    }
}
