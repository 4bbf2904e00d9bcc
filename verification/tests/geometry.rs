use combat_core::vec2::{Vec2I, clamp_len, distance_sq, div_trunc, isqrt, isqrt_ceil, unit_milli};
use combat_core::locomotion::{wave, wave_shifted};

#[test]
fn isqrt_exact_values() {
    assert_eq!(isqrt(0), 0);
    assert_eq!(isqrt(1), 1);
    assert_eq!(isqrt(10), 3);
    assert_eq!(isqrt(144), 12);
    assert_eq!(isqrt(145), 12);
    assert_eq!(isqrt(2_500_000_000), 50_000);
    assert_eq!(isqrt(i64::MAX), 3_037_000_499);
}

#[test]
fn isqrt_ceil_rounds_up() {
    assert_eq!(isqrt_ceil(0), 0);
    assert_eq!(isqrt_ceil(1), 1);
    assert_eq!(isqrt_ceil(2), 2);
    assert_eq!(isqrt_ceil(144), 12);
    assert_eq!(isqrt_ceil(145), 13);
}

#[test]
fn div_trunc_rounds_toward_zero() {
    assert_eq!(div_trunc(7, 2), 3);
    assert_eq!(div_trunc(-7, 2), -3);
    assert_eq!(div_trunc(0, 5), 0);
    assert_eq!(div_trunc(-1, 1000), 0);
}

#[test]
fn unit_milli_axis_aligned() {
    let u = unit_milli(Vec2I { x: -80, y: 0 });
    assert_eq!(u, Vec2I { x: -1000, y: 0 });
    let z = unit_milli(Vec2I { x: 0, y: 0 });
    assert_eq!(z, Vec2I { x: 0, y: 0 });
    let d = unit_milli(Vec2I { x: 300, y: 400 });
    assert_eq!(d, Vec2I { x: 600, y: 800 });
}

#[test]
fn clamp_len_keeps_short_vectors_and_caps_long_ones() {
    let v = Vec2I { x: 3, y: 4 };
    assert_eq!(clamp_len(v, 5), v);
    let w = clamp_len(Vec2I { x: 600, y: 800 }, 5);
    // rescaled onto (or inside) the radius-5 circle along the same ray
    assert_eq!(w, Vec2I { x: 3, y: 4 });
    let m = w.x * w.x + w.y * w.y;
    assert!(m <= 25);
    assert_eq!(clamp_len(Vec2I { x: 0, y: 0 }, 0), Vec2I { x: 0, y: 0 });
}

#[test]
fn distance_sq_symmetric() {
    let a = Vec2I { x: 1000, y: 2000 };
    let b = Vec2I { x: 4000, y: 6000 };
    assert_eq!(distance_sq(a, b), 25_000_000);
    assert_eq!(distance_sq(b, a), 25_000_000);
}

#[test]
fn wave_quarter_points() {
    assert_eq!(wave(0), 0);
    assert_eq!(wave(1571), 1000);
    assert_eq!(wave(3142), 0);
    assert_eq!(wave(4713), -1000);
    assert_eq!(wave(6284), 0);
    assert_eq!(wave(785), 499);
}

#[test]
fn wave_is_periodic_and_bounded() {
    for k in 0..40 {
        let x = k * 391;
        assert_eq!(wave(x), wave(x + 6284));
        let w = wave(x);
        assert!((-1000..=1000).contains(&w));
    }
    assert_eq!(wave_shifted(0), 1000);
}
