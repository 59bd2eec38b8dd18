use voxel_world::cull::{cube_visible, Plane};
use voxel_world::settings::{NoiseSettings, WorldParams};
use voxel_world::ChunkCoord;

#[test]
fn default_settings_hold_five_octaves() {
    let s = NoiseSettings::default();
    assert_eq!(s.layers.len(), 5);
    let seeds: Vec<i32> = s.layers.iter().map(|l| l.seed).collect();
    assert_eq!(seeds, vec![0, 1, 2, 4, 5]);
    let freqs: Vec<u32> = s.layers.iter().map(|l| l.frequency).collect();
    assert_eq!(freqs, vec![10, 30, 80, 160, 320]);
    let amps: Vec<u32> = s.layers.iter().map(|l| l.amplitude).collect();
    assert_eq!(amps, vec![100, 50, 20, 10, 5]);
}

#[test]
fn amplitude_adjustment_clamps_at_zero() {
    let mut s = NoiseSettings::default();
    s.adjust_amplitude(4, -10);
    assert_eq!(s.layers[4].amplitude, 0);
    s.adjust_amplitude(4, -10);
    assert_eq!(s.layers[4].amplitude, 0);
    s.adjust_amplitude(4, 10);
    assert_eq!(s.layers[4].amplitude, 10);
    assert_eq!(s.layers[3].amplitude, 10);
}

#[test]
fn frequency_adjustment_clamps_at_zero() {
    let mut s = NoiseSettings::default();
    s.adjust_frequency(0, -10);
    assert_eq!(s.layers[0].frequency, 0);
    s.adjust_frequency(0, -10);
    assert_eq!(s.layers[0].frequency, 0);
    s.adjust_frequency(0, 25);
    assert_eq!(s.layers[0].frequency, 25);
    assert_eq!(s.layers[1].frequency, 30);
}

#[test]
fn view_width_never_drops_below_one() {
    let mut p = WorldParams::default();
    assert_eq!(p.view_width, 24);
    p.apply_view_delta(-100);
    assert_eq!(p.view_width, 1);
    p.apply_view_delta(-1);
    assert_eq!(p.view_width, 1);
    p.apply_view_delta(5);
    assert_eq!(p.view_width, 6);
}

#[test]
fn cube_against_half_spaces() {
    // x >= 0: the origin chunk touches the plane, a chunk two to the
    // left lies wholly outside.
    let planes = vec![Plane { a: 1, b: 0, c: 0, d: 0 }];
    assert!(cube_visible(&planes, ChunkCoord { x: 0, y: 0, z: 0 }));
    assert!(!cube_visible(&planes, ChunkCoord { x: -2, y: 0, z: 0 }));
    // Shifting the plane by 64 blocks brings that chunk back in.
    let shifted = vec![Plane { a: 1, b: 0, c: 0, d: 64 }];
    assert!(cube_visible(&shifted, ChunkCoord { x: -2, y: 0, z: 0 }));
    // Two opposing planes forming a slab.
    let slab = vec![
        Plane { a: 0, b: 1, c: 0, d: 0 },
        Plane { a: 0, b: -1, c: 0, d: 96 },
    ];
    assert!(cube_visible(&slab, ChunkCoord { x: 0, y: 2, z: 0 }));
    assert!(!cube_visible(&slab, ChunkCoord { x: 0, y: 4, z: 0 }));
    assert!(!cube_visible(&slab, ChunkCoord { x: 0, y: -2, z: 0 }));
    // An empty frustum hides nothing.
    let none: Vec<Plane> = Vec::new();
    assert!(cube_visible(&none, ChunkCoord { x: 5, y: 5, z: 5 }));
}

#[test]
fn world_origin_placement() {
    let c = ChunkCoord { x: 3, y: 1, z: -2 };
    assert_eq!(c.world_origin(), (96, 32, -64));
}
