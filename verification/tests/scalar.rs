use raytracerust::scalar::{Scalar, MAX_RAW, MIN_RAW, ONE_RAW};

/// The scalar nearest to `x`.
fn s(x: f64) -> Scalar {
    Scalar { raw: (x * 4294967296.0).round() as i64 }
}

#[test]
fn one_is_two_to_the_32() {
    assert_eq!(Scalar::one().raw, 4294967296);
    assert_eq!(Scalar::from_int(1), Scalar::one());
    assert_eq!(Scalar::from_int(-3).raw, -3 * ONE_RAW);
    assert_eq!(Scalar::from_usize(7).raw, 7 * ONE_RAW);
}

#[test]
fn sums_saturate() {
    let max = Scalar::max_value();
    assert_eq!(max.add(Scalar::one()).raw, MAX_RAW);
    assert_eq!(max.neg().sub(Scalar::one()).raw, MIN_RAW);
    assert_eq!(Scalar { raw: i64::MIN }.neg().raw, MAX_RAW);
    assert_eq!(s(1.5).add(s(2.25)), s(3.75));
    assert_eq!(s(1.5).sub(s(2.25)), s(-0.75));
}

#[test]
fn integers_saturate() {
    assert_eq!(Scalar::from_int(i32::MIN).raw, MIN_RAW);
    assert_eq!(Scalar::from_int(i32::MAX).raw, 0x7fff_ffff * ONE_RAW);
    assert_eq!(Scalar::from_usize(0x8000_0000).raw, MAX_RAW);
    assert_eq!(Scalar::from_usize(0x7fff_ffff).raw, 0x7fff_ffff * ONE_RAW);
}

#[test]
fn products_round_toward_zero() {
    assert_eq!(s(1.5).mul(s(2.5)), s(3.75));
    assert_eq!(Scalar { raw: 1 }.mul(Scalar { raw: 1 }).raw, 0);
    assert_eq!(Scalar { raw: -1 }.mul(Scalar { raw: 1 }).raw, 0);
    assert_eq!(Scalar { raw: 3 }.mul(s(0.5)).raw, 1);
    assert_eq!(Scalar { raw: -3 }.mul(s(0.5)).raw, -1);
    assert_eq!(Scalar::max_value().mul(s(2.)).raw, MAX_RAW);
    assert_eq!(Scalar::max_value().mul(s(-2.)).raw, MIN_RAW);
}

#[test]
fn quotients_round_toward_zero() {
    assert_eq!(s(3.).div(s(2.)), s(1.5));
    assert_eq!(s(1.).div(s(3.)).raw, 1431655765);
    assert_eq!(s(-1.).div(s(3.)).raw, -1431655765);
    assert_eq!(s(1.).div(s(-3.)).raw, -1431655765);
    assert_eq!(s(-1.).div(s(-3.)).raw, 1431655765);
    assert_eq!(Scalar::from_ratio(16, 9).raw, 7635497415);
    assert_eq!(Scalar::from_ratio(1, 2), s(0.5));
}

#[test]
fn division_by_zero_saturates() {
    assert_eq!(s(1.).div(s(0.)).raw, MAX_RAW);
    assert_eq!(s(-1.).div(s(0.)).raw, MIN_RAW);
    assert_eq!(s(0.).div(s(0.)).raw, 0);
}

#[test]
fn square_roots_round_down() {
    assert_eq!(s(0.25).sqrt(), s(0.5));
    assert_eq!(s(4.).sqrt(), s(2.));
    assert_eq!(s(0.5).sqrt().raw, 3037000499);
    assert_eq!(s(2.).sqrt().raw, 6074000999);
    assert_eq!(s(0.).sqrt().raw, 0);
    assert_eq!(s(-4.).sqrt().raw, 0);
    assert_eq!(Scalar { raw: 1 }.sqrt().raw, 65536);
    let top = Scalar::max_value().sqrt().raw as i128;
    let n = (MAX_RAW as i128) << 32;
    assert!(top * top <= n && n < (top + 1) * (top + 1));
}

#[test]
fn products_are_added_before_they_are_rounded() {
    let third = s(1.).div(s(3.));
    let x = Scalar { raw: 1 };
    let half = s(0.5);
    assert_eq!(x.mul(half).add(x.mul(half)).raw, 0);
    assert_eq!(Scalar::sum_of_products(x, half, x, half, s(0.), s(0.)).raw, 1);
    assert_eq!(Scalar::sum_of_products(s(3.), s(4.), s(6.), s(5.), s(9.), s(6.)), s(96.));
    assert_eq!(Scalar::difference_of_products(s(3.), s(4.), s(6.), s(5.)), s(-18.));
    assert_eq!(Scalar::difference_of_products(third, s(3.), s(1.), s(1.)).raw, -1);
    let max = Scalar::max_value();
    assert_eq!(Scalar::sum_of_products(max, max, max, max, max, max).raw, MAX_RAW);
    assert_eq!(Scalar::difference_of_products(max, max, max, max).raw, 0);
    assert_eq!(Scalar::difference_of_products(s(0.), s(0.), max, max).raw, MIN_RAW);
    let min = Scalar { raw: i64::MIN };
    assert_eq!(Scalar::sum_of_products(min, min, min, min, min, min).raw, MAX_RAW);
    assert_eq!(Scalar::sum_of_products(min, max, min, max, min, max).raw, MIN_RAW);
    assert_eq!(Scalar::sum_of_products(min, min, min, max, s(0.), s(0.)).raw, 0x8000_0000);
}

#[test]
fn absolute_value_least_and_greatest() {
    assert_eq!(s(-2.5).abs(), s(2.5));
    assert_eq!(s(2.5).abs(), s(2.5));
    assert_eq!(s(1.).min(s(2.)), s(1.));
    assert_eq!(s(2.).min(s(1.)), s(1.));
    assert_eq!(s(1.).max(s(2.)), s(2.));
    assert_eq!(s(2.).max(s(1.)), s(2.));
}

#[test]
fn truncation_drops_the_fraction() {
    assert_eq!(s(2.75).trunc(), 2);
    assert_eq!(s(-2.75).trunc(), -2);
    assert_eq!(s(0.999).trunc(), 0);
}

#[test]
fn text_of_a_scalar() {
    assert_eq!(s(0.).to_string(), "0");
    assert_eq!(s(5.).to_string(), "5");
    assert_eq!(s(-5.).to_string(), "-5");
    assert_eq!(s(0.5).to_string(), "0.5");
    assert_eq!(s(-0.5).to_string(), "-0.5");
    assert_eq!(s(-2.75).to_string(), "-2.75");
    assert_eq!(s(0.001).to_string(), "0.001");
    assert_eq!(s(255.999).to_string(), "255.999");
    assert_eq!(s(0.0000001).to_string(), "0.0000001");
    assert_eq!(Scalar { raw: 1431655765 }.to_string(), "0.3333333333");
    assert_eq!(Scalar { raw: 1 }.to_string(), "0.0000000002");
    assert_eq!(Scalar { raw: -1 }.to_string(), "-0.0000000002");
    assert_eq!(Scalar { raw: MAX_RAW }.to_string(), "2147483647.9999999998");
    assert_eq!(Scalar { raw: i64::MIN }.to_string(), "-2147483648");
}

#[test]
fn the_text_of_a_scalar_reads_back() {
    let mut raw: i64 = 1;
    while raw < ONE_RAW * 3 {
        let text = Scalar { raw }.to_string();
        let value: f64 = text.parse().unwrap();
        assert_eq!(s(value).raw, raw);
        raw = raw * 3 + 7;
    }
}

#[test]
fn operators_are_the_named_operations() {
    let (a, b) = (s(1.5), s(-2.25));
    assert_eq!(a + b, a.add(b));
    assert_eq!(a - b, a.sub(b));
    assert_eq!(a * b, a.mul(b));
    assert_eq!(a / b, a.div(b));
    assert_eq!(-a, a.neg());
    assert_eq!(a + b, s(-0.75));
    assert_eq!(a * b, s(-3.375));
    assert_eq!(Scalar::max_value() + Scalar::one(), Scalar::max_value());
}
