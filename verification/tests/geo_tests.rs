use worldview::coords::{LatLong, SphericalPoint, Vec3Fix};
use worldview::fixmath::{
    cos_fix, cos_full, div_ceil, div_floor, emod, isqrt, round_div, sin_fix, sin_full,
    HALF_PI_FIX, PI_FIX, SCALE, TWO_PI_FIX,
};

#[test]
fn lat_long_round_trip_interior() {
    let p = LatLong::new(500_000, -1_234_567);
    let s = p.as_sph_point(3 * SCALE);
    let q = s.as_lat_long();
    assert_eq!(q.lat, p.lat);
    assert_eq!(q.long, p.long);
    assert_eq!(s.radius, 3 * SCALE);
}

#[test]
fn lat_long_round_trip_edges() {
    for &(lat, long) in &[
        (HALF_PI_FIX, -PI_FIX),
        (-HALF_PI_FIX, PI_FIX - 1),
        (0, -PI_FIX),
        (0, 0),
        (-HALF_PI_FIX, -PI_FIX),
    ] {
        let p = LatLong::new(lat, long);
        let q = p.as_sph_point(SCALE).as_lat_long();
        assert_eq!((q.lat, q.long), (lat, long));
    }
}

#[test]
fn angle_mapping_is_fixed() {
    let p = LatLong::new(300_000, 700_000);
    let s = p.as_sph_point(2 * SCALE);
    assert_eq!(s.theta, HALF_PI_FIX - 300_000);
    assert_eq!(s.phi, PI_FIX - 700_000);
}

#[test]
fn normalize_in_range_is_identity() {
    let p = LatLong::new(100, -200);
    let n = p.normalize();
    assert_eq!((n.lat, n.long), (100, -200));
}

#[test]
fn normalize_clamps_latitude() {
    let n = LatLong::new(HALF_PI_FIX + 5, 0).normalize();
    assert_eq!(n.lat, HALF_PI_FIX);
    let s = LatLong::new(-HALF_PI_FIX - 5, 0).normalize();
    assert_eq!(s.lat, -HALF_PI_FIX);
}

#[test]
fn normalize_wraps_longitude() {
    assert_eq!(LatLong::new(0, PI_FIX).normalize().long, -PI_FIX);
    assert_eq!(LatLong::new(0, -PI_FIX - 1).normalize().long, PI_FIX - 1);
    assert_eq!(LatLong::new(0, TWO_PI_FIX + 7).normalize().long, 7);
    assert_eq!(LatLong::new(0, -2 * TWO_PI_FIX - 3).normalize().long, -3);
}

#[test]
fn add_and_sub_normalize() {
    let a = LatLong::new(HALF_PI_FIX, PI_FIX - 1);
    let b = LatLong::new(1, 1);
    let sum = a.add(&b);
    assert_eq!(sum.lat, HALF_PI_FIX);
    assert_eq!(sum.long, -PI_FIX);
    let diff = a.sub(&b);
    assert_eq!(diff.lat, HALF_PI_FIX - 1);
    assert_eq!(diff.long, PI_FIX - 2);
}

#[test]
fn is_ok_detects_ranges() {
    assert!(SphericalPoint::new(SCALE, HALF_PI_FIX, 0).is_ok());
    assert!(!SphericalPoint::new(-1, HALF_PI_FIX, 0).is_ok());
    assert!(!SphericalPoint::new(SCALE, PI_FIX + 1, 0).is_ok());
    assert!(!SphericalPoint::new(SCALE, HALF_PI_FIX, TWO_PI_FIX).is_ok());
}

#[test]
fn sine_exact_points() {
    assert_eq!(sin_fix(0), 0);
    assert_eq!(sin_fix(PI_FIX), 0);
    assert_eq!(sin_fix(HALF_PI_FIX), SCALE);
    assert_eq!(sin_fix(200_000), sin_fix(PI_FIX - 200_000));
    assert_eq!(cos_fix(0), SCALE);
    assert_eq!(cos_fix(PI_FIX), -SCALE);
    assert_eq!(cos_fix(HALF_PI_FIX), 0);
}

#[test]
fn sine_close_to_reference() {
    for k in 0..=16 {
        let x = k * (PI_FIX / 16);
        let approx = sin_fix(x) as f64 / SCALE as f64;
        let exact = (x as f64 / SCALE as f64).sin();
        assert!((approx - exact).abs() < 0.002);
    }
}

#[test]
fn full_turn_trig_signs() {
    assert_eq!(sin_full(PI_FIX + HALF_PI_FIX), -SCALE);
    assert_eq!(cos_full(PI_FIX + HALF_PI_FIX), 0);
    assert_eq!(cos_full(TWO_PI_FIX - 1), cos_fix(1));
}

#[test]
fn integer_sqrt_exact() {
    assert_eq!(isqrt(0), 0);
    assert_eq!(isqrt(15), 3);
    assert_eq!(isqrt(16), 4);
    assert_eq!(isqrt(1_000_000_000_000), 1_000_000);
    assert_eq!(isqrt(u128::from(u64::MAX)), 4_294_967_295);
}

#[test]
fn division_helpers_on_negatives() {
    assert_eq!(div_floor(-7, 2), -4);
    assert_eq!(div_floor(7, 2), 3);
    assert_eq!(div_ceil(-7, 2), -3);
    assert_eq!(div_ceil(7, 2), 4);
    assert_eq!(emod(-7, 5), 3);
    assert_eq!(emod(7, 5), 2);
    assert_eq!(round_div(5, 2), 3);
    assert_eq!(round_div(-5, 2), -3);
    assert_eq!(round_div(4, 3), 1);
    assert_eq!(round_div(-4, 3), -1);
}

#[test]
fn great_circle_distance_to_self_is_zero() {
    for &(lat, long) in &[
        (0, 0),
        (500_000, -1_234_567),
        (HALF_PI_FIX, 0),
        (-HALF_PI_FIX, -PI_FIX),
        (1, 1),
    ] {
        let p = LatLong::new(lat, long);
        assert_eq!(p.great_circle_distance(&p), 0);
    }
}

#[test]
fn great_circle_distance_of_antipodes_is_pi() {
    let a = LatLong::new(0, 0);
    let b = LatLong::new(0, -PI_FIX);
    assert_eq!(a.great_circle_distance(&b), PI_FIX);
}

#[test]
fn great_circle_distance_stays_in_range_and_nearly_symmetric() {
    let points = [
        LatLong::new(0, 0),
        LatLong::new(700_000, 1_200_000),
        LatLong::new(-300_000, -2_900_000),
        LatLong::new(HALF_PI_FIX, 500_000),
        LatLong::new(-HALF_PI_FIX, -PI_FIX),
    ];
    for a in &points {
        for b in &points {
            let d_ab = a.great_circle_distance(b);
            let d_ba = b.great_circle_distance(a);
            assert!(0 <= d_ab && d_ab <= PI_FIX);
            assert!((d_ab - d_ba).abs() <= 10_000);
        }
    }
}

#[test]
fn great_circle_distance_close_to_reference() {
    let samples = [
        ((0.5, 0.3), (-0.4, 1.9)),
        ((1.2, -3.0), (-1.2, 0.1)),
        ((0.0, 0.0), (0.0, 1.0)),
        ((0.9, 2.2), (0.8, 2.3)),
    ];
    for &((la, lo), (lb, lob)) in &samples {
        let a = LatLong::new((la * 1e6) as i64, (lo * 1e6) as i64);
        let b = LatLong::new((lb * 1e6) as i64, (lob * 1e6) as i64);
        let got = a.great_circle_distance(&b) as f64 / 1e6;
        let delta: f64 = (lo - lob as f64).abs();
        let exact = ((f64::cos(lb) * delta.sin()).powi(2)
            + (f64::cos(la) * f64::sin(lb) - f64::sin(la) * f64::cos(lb) * delta.cos()).powi(2))
        .sqrt()
        .atan2(f64::sin(la) * f64::sin(lb) + f64::cos(la) * f64::cos(lb) * delta.cos());
        assert!((got - exact).abs() < 0.02);
    }
}

#[test]
fn cross_product_of_axes() {
    let x = Vec3Fix::new(SCALE, 0, 0);
    let y = Vec3Fix::new(0, SCALE, 0);
    let z = x.cross(&y);
    assert_eq!((z.x, z.y, z.z), (0, 0, SCALE));
}

#[test]
fn normalize_three_four_five() {
    let v = Vec3Fix::new(3 * SCALE, 4 * SCALE, 0);
    let u = v.normalize();
    assert_eq!((u.x, u.y, u.z), (600_000, 800_000, 0));
}

#[test]
fn to_vec_on_axes() {
    let equator = SphericalPoint::new(2 * SCALE, HALF_PI_FIX, 0);
    let v = equator.to_vec();
    assert_eq!((v.x, v.y, v.z), (0, 0, 2 * SCALE));
    let pole = SphericalPoint::new(3 * SCALE, 0, 0);
    let p = pole.to_vec();
    assert_eq!((p.x, p.y, p.z), (0, 3 * SCALE, 0));
}
