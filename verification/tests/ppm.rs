use raytracerust::color::Pixel;
use raytracerust::ppm::encode;
use raytracerust::text::{digit, push_decimal};

#[test]
fn digits() {
    assert_eq!(digit(0), '0');
    assert_eq!(digit(5), '5');
    assert_eq!(digit(9), '9');
}

#[test]
fn numerals() {
    let mut out = String::from("n=");
    push_decimal(&mut out, 0);
    out.push(',');
    push_decimal(&mut out, 7);
    out.push(',');
    push_decimal(&mut out, 10);
    out.push(',');
    push_decimal(&mut out, 255);
    out.push(',');
    push_decimal(&mut out, 1200);
    out.push(',');
    push_decimal(&mut out, usize::MAX);
    assert_eq!(out, format!("n=0,7,10,255,1200,{}", usize::MAX));
}

#[test]
fn text_of_a_pixel() {
    let mut out = String::new();
    Pixel { r: 181, g: 0, b: 90 }.push_text(&mut out);
    assert_eq!(out, "181 0 90");
}

#[test]
fn text_of_an_image() {
    let pixels = vec![Pixel { r: 1, g: 2, b: 3 }, Pixel { r: 40, g: 50, b: 60 }];
    assert_eq!(encode(2, 1, &pixels), "P3\n2 1\n255\n1 2 3\n40 50 60\n");
}

#[test]
fn text_of_an_image_without_pixels() {
    assert_eq!(encode(0, 7, &Vec::new()), "P3\n0 7\n255\n");
}
