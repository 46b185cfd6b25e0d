use raytracerust::color::{channel, linear_to_gamma, Color, Pixel};
use raytracerust::scalar::Scalar;
use raytracerust::vec3::Vec3;

/// The scalar nearest to `x`.
fn s(x: f64) -> Scalar {
    Scalar { raw: (x * 4294967296.0).round() as i64 }
}

/// The real number that `x` stands for.
fn f(x: Scalar) -> f64 {
    x.raw as f64 / 4294967296.0
}

#[test]
fn color_print_struct() {
    let input = Color::new(s(0.5), s(0.25), s(0.125));

    let expected = format!("{} {} {}", 181, 128, 90);
    assert_eq!(expected, input.to_string());
}

#[test]
fn color_usize_index() {
    let input = Color::new(s(0.5), s(0.25), s(0.125));

    assert_eq!(0.5, f(input.get(0)));
    assert_eq!(0.25, f(input.get(1)));
    assert_eq!(0.125, f(input.get(2)));
}

#[test]
fn color_assign_scalar_division() {
    let mut left = Color::new(s(3.), s(6.), s(9.));
    left /= s(2.);
    let expected = Color::new(s(1.5), s(3.), s(4.5));

    assert_eq!(left, expected);
}

#[test]
fn color_assign_scalar_division_usize() {
    let mut left = Color::new(s(3.), s(6.), s(9.));
    left /= 2;
    let expected = Color::new(s(1.5), s(3.), s(4.5));

    assert_eq!(left, expected);
}

#[test]
fn gamma_of_a_negative_value_is_zero() {
    assert_eq!(linear_to_gamma(s(-0.25)), s(0.));
    assert_eq!(linear_to_gamma(s(0.)), s(0.));
    assert_eq!(linear_to_gamma(s(0.25)), s(0.5));
}

#[test]
fn channels_are_clamped() {
    assert_eq!(channel(s(-1.)), 0);
    assert_eq!(channel(s(0.)), 0);
    assert_eq!(channel(s(1.)), 255);
    assert_eq!(channel(s(400.)), 255);
    assert_eq!(channel(s(0.25)), 128);
}

#[test]
fn pixel_of_black_and_white() {
    assert_eq!(Color::black().to_pixel(), Pixel { r: 0, g: 0, b: 0 });
    assert_eq!(Color::white().to_pixel(), Pixel { r: 255, g: 255, b: 255 });
}

#[test]
fn sum_adds_from_black() {
    let colors = vec![
        Color::new(s(0.5), s(0.25), s(0.125)),
        Color::new(s(1.), s(2.), s(3.)),
        Color::new(s(-0.5), s(0.), s(0.5)),
    ];
    assert_eq!(Color::sum(&colors), Color::new(s(1.), s(2.25), s(3.625)));
    assert_eq!(Color::sum(&Vec::new()), Color::black());
}

#[test]
fn colors_from_vectors_and_triples() {
    let expected = Color::new(s(0.5), s(0.25), s(0.125));
    assert_eq!(Color::from(Vec3(s(0.5), s(0.25), s(0.125))), expected);
    assert_eq!(Color::from((s(0.5), s(0.25), s(0.125))), expected);
    assert_eq!(Color::from_vec3(Vec3(s(0.5), s(0.25), s(0.125))), expected);
}

#[test]
fn colors_are_scaled_multiplied_and_added() {
    let c = Color::new(s(0.5), s(0.25), s(0.125));
    assert_eq!(c * s(2.), Color::new(s(1.), s(0.5), s(0.25)));
    assert_eq!(&c * s(2.), Color::new(s(1.), s(0.5), s(0.25)));
    assert_eq!(s(2.) * c, Color::new(s(1.), s(0.5), s(0.25)));
    assert_eq!(s(2.) * &c, Color::new(s(1.), s(0.5), s(0.25)));
    assert_eq!(c * Color::new(s(2.), s(0.), s(-1.)), Color::new(s(1.), s(0.), s(-0.125)));
    assert_eq!(c + Color::new(s(2.), s(0.), s(-1.)), Color::new(s(2.5), s(0.25), s(-0.875)));
    let mut d = c;
    d += Color::new(s(2.), s(0.), s(-1.));
    assert_eq!(d, Color::new(s(2.5), s(0.25), s(-0.875)));
}

#[test]
fn setting_a_channel_leaves_the_others() {
    let mut c = Color::new(s(0.5), s(0.25), s(0.125));
    c.set(2, s(1.));
    assert_eq!(c, Color::new(s(0.5), s(0.25), s(1.)));
}
