use voxel_world::noise::{sample2, sample3, COORD_MAX, NOISE_UNIT};

#[test]
fn sample2_is_deterministic() {
    for &(seed, freq, wx, wz) in &[
        (0i32, 10u32, 0i64, 0i64),
        (1, 30, 5, -7),
        (99, 10, 1000, 1000),
        (1337, 3, -4000000, 4000000),
    ] {
        let a = sample2(seed, freq, wx, wz);
        let b = sample2(seed, freq, wx, wz);
        assert_eq!(a, b);
    }
}

#[test]
fn sample3_is_deterministic() {
    let a = sample3(3, 50, 17, 40, -23);
    let b = sample3(3, 50, 17, 40, -23);
    assert_eq!(a, b);
}

#[test]
fn samples_stay_in_range() {
    for i in -50i64..50 {
        let v2 = sample2(7, 80, i * 37, i * 91);
        assert!(v2 <= 2 * NOISE_UNIT);
        let v3 = sample3(7, 90, i * 37, i, i * 91);
        assert!(v3 <= 2 * NOISE_UNIT);
    }
    assert!(sample2(0, 1000000, COORD_MAX, -COORD_MAX) <= 2 * NOISE_UNIT);
}

#[test]
fn zero_frequency_yields_constant_field() {
    // A degenerate configuration is permitted: the whole field collapses
    // to the single lattice corner at the origin.
    let v = sample2(0, 0, 0, 0);
    assert_eq!(v, 1579);
    for &(wx, wz) in &[(1i64, 2i64), (-1000, 1000), (123456, -654321)] {
        assert_eq!(sample2(0, 0, wx, wz), v);
    }
}

#[test]
fn distinct_seeds_give_distinct_fields() {
    let mut differs = false;
    for i in 0i64..64 {
        if sample2(1, 100, i * 13, i * 29) != sample2(2, 100, i * 13, i * 29) {
            differs = true;
        }
    }
    assert!(differs);
}
