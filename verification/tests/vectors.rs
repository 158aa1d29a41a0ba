use birds::components::{Timer, HerbSpawnConfig};
use birds::vec2::{add_desired, addv, dist_sq, isqrt, negv, normalize_or_zero, scale_milli, subv, V2, DES_LIMIT};

#[test]
fn normalize_zero_vector_yields_zero() {
    let z = normalize_or_zero(V2 { x: 0, y: 0 });
    assert_eq!(z, V2 { x: 0, y: 0 });
}

#[test]
fn normalize_three_four_five() {
    // length 5000: components scale to 600 and 800 milli
    let r = normalize_or_zero(V2 { x: 3000, y: 4000 });
    assert_eq!(r, V2 { x: 600, y: 800 });
}

#[test]
fn normalize_keeps_signs() {
    let r = normalize_or_zero(V2 { x: -3000, y: 4000 });
    assert_eq!(r, V2 { x: -600, y: 800 });
    let r2 = normalize_or_zero(V2 { x: 3000, y: -4000 });
    assert_eq!(r2, V2 { x: 600, y: -800 });
}

#[test]
fn normalize_axis_vectors() {
    assert_eq!(normalize_or_zero(V2 { x: 7, y: 0 }), V2 { x: 1000, y: 0 });
    assert_eq!(normalize_or_zero(V2 { x: 0, y: -123456 }), V2 { x: 0, y: -1000 });
}

#[test]
fn isqrt_exact_values() {
    assert_eq!(isqrt(0), 0);
    assert_eq!(isqrt(1), 1);
    assert_eq!(isqrt(24), 4);
    assert_eq!(isqrt(25), 5);
    assert_eq!(isqrt(1_000_000), 1000);
    assert_eq!(isqrt(u64::MAX as u128), 4_294_967_295);
}

#[test]
fn dist_sq_is_squared_distance() {
    let a = V2 { x: 0, y: 0 };
    let b = V2 { x: 3000, y: 4000 };
    assert_eq!(dist_sq(a, b), 25_000_000);
}

#[test]
fn vector_sums_and_scales() {
    let a = V2 { x: 10, y: -20 };
    let b = V2 { x: 5, y: 7 };
    assert_eq!(addv(a, b), V2 { x: 15, y: -13 });
    assert_eq!(subv(a, b), V2 { x: 5, y: -27 });
    assert_eq!(negv(a), V2 { x: -10, y: 20 });
    // weight 2.0 on a unit-box vector
    assert_eq!(scale_milli(2000, V2 { x: 600, y: -800 }), V2 { x: 1200, y: -1600 });
    // weight 0.1 truncates toward zero
    assert_eq!(scale_milli(100, V2 { x: 15, y: -15 }), V2 { x: 1, y: -1 });
}

#[test]
fn desired_direction_saturates() {
    let d = add_desired(V2 { x: DES_LIMIT, y: -DES_LIMIT }, V2 { x: 5, y: -5 });
    assert_eq!(d, V2 { x: DES_LIMIT, y: -DES_LIMIT });
    let e = add_desired(V2 { x: 3, y: 4 }, V2 { x: -10, y: 10 });
    assert_eq!(e, V2 { x: -7, y: 14 });
}

#[test]
fn timer_fires_once_per_crossing() {
    // a one-second repeating timer over ticks summing to 2.5 seconds
    let mut t = Timer { elapsed_ms: 0, period_ms: 1000 };
    let mut fires = 0;
    for _ in 0..5 {
        if t.tick(500) {
            fires += 1;
        }
    }
    assert_eq!(fires, 2);
    assert_eq!(t.elapsed_ms, 500);
}

#[test]
fn timer_large_delta_fires_once() {
    let mut t = Timer { elapsed_ms: 0, period_ms: 1000 };
    assert!(t.tick(2500));
    assert_eq!(t.elapsed_ms, 500);
    assert!(!t.tick(400));
    assert!(t.tick(100));
    assert_eq!(t.elapsed_ms, 0);
}

#[test]
fn spawner_config_starts_disarmed() {
    let c: HerbSpawnConfig = birds::systems::setup_herb_spawner();
    assert_eq!(c.timer.elapsed_ms, 0);
    assert_eq!(c.timer.period_ms, birds::HERB_SPAWN_PERIOD_MS);
}
