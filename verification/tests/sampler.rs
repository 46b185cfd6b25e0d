use raytracerust::sampler::Sampler;
use raytracerust::scalar::Scalar;

/// The scalar nearest to `x`.
fn s(x: f64) -> Scalar {
    Scalar { raw: (x * 4294967296.0).round() as i64 }
}

#[test]
fn draws_lie_in_the_range() {
    let mut rng = Sampler::from_seed(1);
    for _ in 0..1000 {
        let x = rng.uniform(s(-0.5), s(0.5));
        assert!(s(-0.5).raw <= x.raw && x.raw < s(0.5).raw);
    }
    for _ in 0..1000 {
        let x = rng.uniform(Scalar { raw: 7 }, Scalar { raw: 9 });
        assert!(x.raw == 7 || x.raw == 8);
    }
}

#[test]
fn draws_differ() {
    let mut rng = Sampler::from_seed(1);
    let first = rng.uniform(s(-1.), s(1.));
    let mut all_equal = true;
    for _ in 0..100 {
        if rng.uniform(s(-1.), s(1.)) != first {
            all_equal = false;
        }
    }
    assert!(!all_equal);
}

#[test]
fn an_empty_range_gives_its_lower_end() {
    let mut rng = Sampler::from_seed(1);
    assert_eq!(rng.uniform(s(2.), s(2.)), s(2.));
    assert_eq!(rng.uniform(s(2.), s(-2.)), s(2.));
}

#[test]
fn one_seed_gives_one_stream() {
    let mut a = Sampler::from_seed(42);
    let mut b = Sampler::from_seed(42);
    let mut c = Sampler::from_seed(43);
    let mut differs = false;
    for _ in 0..100 {
        let x = a.uniform(s(-1.), s(1.));
        assert_eq!(x, b.uniform(s(-1.), s(1.)));
        if x != c.uniform(s(-1.), s(1.)) {
            differs = true;
        }
    }
    assert!(differs);
}
